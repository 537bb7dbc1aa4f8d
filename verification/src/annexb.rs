//! H.264 byte streams: finding NAL units, and bringing what an encoder emits
//! into Annex B form, where each unit follows a start code.
//!
//! Encoders hand out three shapes of data. Annex B streams are passed on as
//! they are. AVC configuration records hold the parameter sets, each behind a
//! two-byte length. All other output is a run of units, each behind a four-byte
//! length.
use crate::bytes;
use vstd::prelude::*;

verus! {

/// Why a byte string is not an H.264 stream that can be brought to Annex B form.
#[derive(Clone, Copy, Debug, PartialEq, Eq, Structural)]
pub enum BitstreamError {
    /// A unit's length is zero or runs past the end of the data.
    InvalidLength,
    /// The data is no run of units with lengths in front.
    NotH264,
    /// A configuration record ends behind its sequence parameter sets.
    MissingPps,
    /// A configuration record ends inside a length.
    TruncatedRecord,
    /// A configuration record ends inside a parameter set.
    TruncatedParameterSet,
}

/// The type of a NAL unit that holds a sequence parameter set.
pub const NAL_SPS: u8 = 7;

/// The type of a NAL unit that holds a picture parameter set.
pub const NAL_PPS: u8 = 8;

// ---------------------------------------------------------------------------
// Start codes and the units between them.
// ---------------------------------------------------------------------------

/// A three-byte start code stands at `at`.
pub open spec fn is_start(stream: Seq<u8>, at: int) -> bool {
    &&& 0 <= at
    &&& at + 3 <= stream.len()
    &&& stream[at] == 0
    &&& stream[at + 1] == 0
    &&& stream[at + 2] == 1
}

/// The first start code at or behind `from`, or the stream's length.
pub open spec fn next_start(stream: Seq<u8>, from: int) -> int
    decreases stream.len() - from,
{
    if from + 3 > stream.len() {
        stream.len() as int
    } else if is_start(stream, from) {
        from
    } else {
        next_start(stream, from + 1)
    }
}

/// The NAL units at or behind `from`: each runs from its start code up to the
/// next one, the last up to the end of the stream.
pub open spec fn units_from(stream: Seq<u8>, from: int) -> Seq<Seq<u8>>
    decreases stream.len() - from,
    via units_from_decreases
{
    let first = next_start(stream, from);
    if from < 0 || first >= stream.len() {
        Seq::empty()
    } else {
        let next = next_start(stream, first + 3);
        seq![stream.subrange(first, next)] + units_from(stream, next)
    }
}

#[via_fn]
proof fn units_from_decreases(stream: Seq<u8>, from: int) {
    if 0 <= from <= stream.len() {
        lemma_next_start(stream, from);
        if next_start(stream, from) < stream.len() {
            lemma_next_start(stream, next_start(stream, from) + 3);
        }
    }
}

/// Splits a stream at its start codes, through `openh264::nal_units`. Believed
/// of it: what stands before the first start code is skipped, each unit runs
/// from its start code up to the next one, and the last up to the end.
#[verifier::external_body]
pub(crate) fn nal_units(stream: &[u8]) -> (units: Vec<Vec<u8>>)
    ensures
        units.deep_view() == units_from(stream@, 0),
{
    openh264::nal_units(stream).map(<[u8]>::to_vec).collect()
}

/// `next_start` gives the first start code from `from` on, if there is one.
proof fn lemma_next_start(stream: Seq<u8>, from: int)
    requires
        0 <= from <= stream.len(),
    ensures
        from <= next_start(stream, from) <= stream.len(),
        next_start(stream, from) < stream.len() ==> is_start(stream, next_start(stream, from)),
        forall|at: int| from <= at < next_start(stream, from) ==> !is_start(stream, at),
    decreases stream.len() - from,
{
    if from + 3 > stream.len() {
    } else if is_start(stream, from) {
    } else {
        lemma_next_start(stream, from + 1);
    }
}

/// Every unit begins at a start code of the stream and ends at the next.
proof fn lemma_unit_has_start(stream: Seq<u8>, from: int, index: int) -> (at: int)
    requires
        0 <= from <= stream.len(),
        0 <= index < units_from(stream, from).len(),
    ensures
        from <= at,
        is_start(stream, at),
        units_from(stream, from)[index] == stream.subrange(at, next_start(stream, at + 3)),
        at + 3 <= next_start(stream, at + 3) <= stream.len(),
    decreases stream.len() - from,
{
    lemma_next_start(stream, from);
    let first = next_start(stream, from);
    lemma_next_start(stream, first + 3);
    let next = next_start(stream, first + 3);
    if index == 0 {
        first
    } else {
        assert(units_from(stream, from)[index] == units_from(stream, next)[index - 1]);
        lemma_unit_has_start(stream, next, index - 1)
    }
}

/// Every start code of the stream begins a unit.
proof fn lemma_start_has_unit(stream: Seq<u8>, from: int, at: int) -> (index: int)
    requires
        0 <= from <= at,
        is_start(stream, at),
    ensures
        0 <= index < units_from(stream, from).len(),
        units_from(stream, from)[index] == stream.subrange(at, next_start(stream, at + 3)),
        at + 3 <= next_start(stream, at + 3) <= stream.len(),
    decreases stream.len() - from,
{
    lemma_next_start(stream, from);
    let first = next_start(stream, from);
    lemma_next_start(stream, first + 3);
    let next = next_start(stream, first + 3);
    if first == at {
        0
    } else {
        // Two start codes do not overlap: the first one ends in a one.
        assert(at >= first + 3);
        let index = lemma_start_has_unit(stream, next, at);
        assert(units_from(stream, from)[index + 1] == units_from(stream, next)[index]);
        index + 1
    }
}

/// The stream holds a NAL unit of the given type: the low five bits of the byte
/// behind a start code.
pub open spec fn has_unit_of_type(stream: Seq<u8>, nal_type: u8) -> bool {
    exists|at: int| #[trigger]
        is_start(stream, at) && at + 3 < stream.len() && stream[at + 3] % 32 == nal_type
}

/// The stream holds both kinds of parameter sets that a decoder starts from.
pub open spec fn has_parameter_sets(stream: Seq<u8>) -> bool {
    has_unit_of_type(stream, NAL_SPS) && has_unit_of_type(stream, NAL_PPS)
}

/// The unit's own type, where it has a byte that tells it.
spec fn unit_is_of_type(unit: Seq<u8>, nal_type: u8) -> bool {
    unit.len() > 3 && unit[3] % 32 == nal_type
}

/// Some unit of a stream has a type other than zero exactly if the type stands
/// behind one of the stream's start codes.
proof fn lemma_types_of_units(stream: Seq<u8>, nal_type: u8)
    requires
        nal_type != 0,
    ensures
        has_unit_of_type(stream, nal_type) <==> exists|i: int|
            0 <= i < units_from(stream, 0).len() && unit_is_of_type(
                #[trigger] units_from(stream, 0)[i],
                nal_type,
            ),
{
    let units = units_from(stream, 0);
    if has_unit_of_type(stream, nal_type) {
        let at = choose|at: int| #[trigger]
            is_start(stream, at) && at + 3 < stream.len() && stream[at + 3] % 32 == nal_type;
        let index = lemma_start_has_unit(stream, 0, at);
        lemma_next_start(stream, at + 3);
        // The next unit does not begin right here: a start code begins with a zero.
        assert(next_start(stream, at + 3) > at + 3);
        assert(unit_is_of_type(units[index], nal_type));
    }
    if exists|i: int| 0 <= i < units.len() && unit_is_of_type(#[trigger] units[i], nal_type) {
        let i = choose|i: int|
            0 <= i < units.len() && unit_is_of_type(#[trigger] units[i], nal_type);
        let at = lemma_unit_has_start(stream, 0, i);
        assert(stream[at + 3] == units[i][3]);
        assert(is_start(stream, at));
    }
}

/// Tells whether a stream holds both a sequence and a picture parameter set.
pub fn contains_parameter_sets(stream: &[u8]) -> (found: bool)
    ensures
        found == has_parameter_sets(stream@),
{
    let units = nal_units(stream);
    let ghost split = units_from(stream@, 0);
    let mut sps: bool = false;
    let mut pps: bool = false;
    let mut i: usize = 0;
    while i < units.len()
        invariant
            units.deep_view() == split,
            split == units_from(stream@, 0),
            0 <= i <= units.len(),
            sps <==> exists|j: int| 0 <= j < i && unit_is_of_type(#[trigger] split[j], NAL_SPS),
            pps <==> exists|j: int| 0 <= j < i && unit_is_of_type(#[trigger] split[j], NAL_PPS),
        decreases units.len() - i,
    {
        let unit = &units[i];
        proof {
            assert(split[i as int] == unit@);
            let at = lemma_unit_has_start(stream@, 0, i as int);
            assert(unit@[2] == stream@[at + 2]);
        }
        let prefix: usize = if unit.len() >= 4 && unit[0] == 0 && unit[1] == 0 && unit[2] == 0
            && unit[3] == 1 {
            4
        } else {
            3
        };
        if unit.len() > prefix {
            let header: u8 = unit[prefix];
            assert(header & 0x1f == header % 32) by (bit_vector);
            let nal_type: u8 = header & 0x1f;
            if nal_type == NAL_SPS {
                sps = true;
            } else if nal_type == NAL_PPS {
                pps = true;
            }
        }
        i += 1;
    }
    proof {
        lemma_types_of_units(stream@, NAL_SPS);
        lemma_types_of_units(stream@, NAL_PPS);
    }
    sps && pps
}

// ---------------------------------------------------------------------------
// Annex B form.
// ---------------------------------------------------------------------------

/// The start code that is put in front of a unit.
pub open spec fn start_code() -> Seq<u8> {
    seq![0u8, 0u8, 0u8, 1u8]
}

/// The Annex B stream of some units: each behind a start code, in order.
pub open spec fn annex_b(units: Seq<Seq<u8>>) -> Seq<u8>
    decreases units.len(),
{
    if units.len() == 0 {
        Seq::empty()
    } else {
        annex_b(units.drop_last()) + start_code() + units.last()
    }
}

/// The parameter set at `at` of a configuration record, and where it ends.
pub open spec fn record_unit(record: Seq<u8>, at: int) -> Result<
    (Seq<u8>, int),
    BitstreamError,
> {
    if at + 2 > record.len() {
        Err(BitstreamError::TruncatedRecord)
    } else if at + 2 + bytes::be16(record, at) > record.len() {
        Err(BitstreamError::TruncatedParameterSet)
    } else {
        let end = at + 2 + bytes::be16(record, at);
        Ok((record.subrange(at + 2, end), end))
    }
}

/// The `count` parameter sets from `at` on, and where the last one ends.
pub open spec fn record_units(record: Seq<u8>, at: int, count: nat) -> Result<
    (Seq<Seq<u8>>, int),
    BitstreamError,
>
    decreases count,
{
    if count == 0 {
        Ok((Seq::empty(), at))
    } else {
        match record_units(record, at, (count - 1) as nat) {
            Ok((units, next)) => match record_unit(record, next) {
                Ok((unit, end)) => Ok((units.push(unit), end)),
                Err(error) => Err(error),
            },
            Err(error) => Err(error),
        }
    }
}

/// The parameter sets of a configuration record. The low five bits of byte five
/// count the sequence parameter sets, which begin at byte six; the byte behind
/// them counts the picture parameter sets that follow it.
pub open spec fn record_parameter_sets(record: Seq<u8>) -> Result<Seq<Seq<u8>>, BitstreamError> {
    match record_units(record, 6, (record[5] % 32) as nat) {
        Ok((sps, next)) => if next >= record.len() {
            Err(BitstreamError::MissingPps)
        } else {
            match record_units(record, next + 1, record[next] as nat) {
                Ok((pps, _)) => Ok(sps + pps),
                Err(error) => Err(error),
            }
        },
        Err(error) => Err(error),
    }
}

/// The units from `at` on, each of them behind its length in four bytes.
pub open spec fn prefixed_units(stream: Seq<u8>, at: int) -> Result<Seq<Seq<u8>>, BitstreamError>
    decreases stream.len() - at,
{
    if at + 4 > stream.len() {
        if at == stream.len() {
            Ok(Seq::empty())
        } else {
            Err(BitstreamError::NotH264)
        }
    } else {
        let length = bytes::be32(stream, at);
        if length <= 0 || at + 4 + length > stream.len() {
            Err(BitstreamError::InvalidLength)
        } else {
            match prefixed_units(stream, at + 4 + length) {
                Ok(rest) => Ok(seq![stream.subrange(at + 4, at + 4 + length)] + rest),
                Err(error) => Err(error),
            }
        }
    }
}

/// The stream has a start code somewhere.
pub open spec fn has_start(stream: Seq<u8>) -> bool {
    exists|at: int| is_start(stream, at)
}

/// The data is taken for a configuration record: version one, and long enough.
pub open spec fn is_record(stream: Seq<u8>) -> bool {
    stream.len() >= 7 && stream[0] == 1
}

/// The Annex B form of what an encoder emitted.
pub open spec fn as_annex_b(stream: Seq<u8>) -> Result<Seq<u8>, BitstreamError> {
    if stream.len() == 0 || has_start(stream) {
        Ok(stream)
    } else {
        let units = if is_record(stream) {
            record_parameter_sets(stream)
        } else {
            prefixed_units(stream, 0)
        };
        match units {
            Ok(units) => Ok(annex_b(units)),
            Err(error) => Err(error),
        }
    }
}

/// A result of bytes, by the bytes' content.
pub open spec fn content(result: Result<Vec<u8>, BitstreamError>) -> Result<
    Seq<u8>,
    BitstreamError,
> {
    match result {
        Ok(bytes) => Ok(bytes@),
        Err(error) => Err(error),
    }
}

/// Appends a unit behind a start code.
fn append_unit(stream: &mut Vec<u8>, unit: &[u8])
    ensures
        final(stream)@ == old(stream)@ + start_code() + unit@,
{
    stream.push(0);
    stream.push(0);
    stream.push(0);
    stream.push(1);
    assert(stream@ =~= old(stream)@ + start_code());
    bytes::append(stream, unit);
}

/// Appends the parameter set at `offset` of a configuration record in Annex B
/// form and moves `offset` behind it.
pub fn append_avcc_unit(header: &[u8], offset: &mut usize, annex_b: &mut Vec<u8>) -> (appended:
    Result<(), BitstreamError>)
    requires
        *old(offset) + 2 <= usize::MAX,
    ensures
        match record_unit(header@, *old(offset) as int) {
            Ok((unit, end)) => {
                &&& appended == Ok::<(), BitstreamError>(())
                &&& *final(offset) == end
                &&& final(annex_b)@ == old(annex_b)@ + start_code() + unit
            },
            Err(error) => {
                &&& appended == Err::<(), BitstreamError>(error)
                &&& final(annex_b)@ == old(annex_b)@
                &&& *final(offset) == *old(offset) + (if error == BitstreamError::TruncatedRecord {
                    0int
                } else {
                    2int
                })
            },
        },
{
    if *offset + 2 > header.len() {
        return Err(BitstreamError::TruncatedRecord);
    }
    let length: usize = bytes::read_be16(header, *offset);
    *offset = *offset + 2;
    if length > header.len() - *offset {
        return Err(BitstreamError::TruncatedParameterSet);
    }
    append_unit(annex_b, &header[*offset..*offset + length]);
    *offset = *offset + length;
    Ok(())
}

/// Appends `count` parameter sets from `offset` on.
fn append_avcc_units(
    header: &[u8],
    offset: &mut usize,
    count: usize,
    stream: &mut Vec<u8>,
    Ghost(before): Ghost<Seq<Seq<u8>>>,
) -> (appended: Result<(), BitstreamError>)
    requires
        *old(offset) <= header@.len(),
        old(stream)@ == annex_b(before),
    ensures
        match record_units(header@, *old(offset) as int, count as nat) {
            Ok((units, end)) => {
                &&& appended == Ok::<(), BitstreamError>(())
                &&& *final(offset) == end
                &&& end <= header@.len()
                &&& final(stream)@ == annex_b(before + units)
            },
            Err(error) => appended == Err::<(), BitstreamError>(error),
        },
{
    let mut done: usize = 0;
    let ghost mut units: Seq<Seq<u8>> = Seq::empty();
    let ghost start = *offset as int;
    assert(before + units =~= before);
    while done < count
        invariant
            done <= count,
            start == *old(offset),
            *offset <= header@.len(),
            record_units(header@, start, done as nat) == Ok::<(Seq<Seq<u8>>, int), BitstreamError>(
                (units, *offset as int),
            ),
            stream@ == annex_b(before + units),
        decreases count - done,
    {
        let ghost next = record_unit(header@, *offset as int);
        if header.len() - *offset < 2 {
            proof {
                lemma_record_units_fail(header@, start, done as nat, count as nat);
            }
            return Err(BitstreamError::TruncatedRecord);
        }
        match append_avcc_unit(header, offset, stream) {
            Ok(()) => {},
            Err(error) => {
                proof {
                    lemma_record_units_fail(header@, start, done as nat, count as nat);
                }
                return Err(error);
            },
        }
        proof {
            let unit = next->Ok_0.0;
            assert((before + units.push(unit)).drop_last() =~= before + units);
            assert((before + units.push(unit)).last() == unit);
            units = units.push(unit);
        }
        done += 1;
    }
    Ok(())
}

/// Where a parameter set cannot be read, neither can a longer list be.
proof fn lemma_record_units_fail(record: Seq<u8>, at: int, good: nat, count: nat)
    requires
        good < count,
        record_units(record, at, good) is Ok,
        record_unit(record, record_units(record, at, good)->Ok_0.1) is Err,
    ensures
        record_units(record, at, count) == Err::<(Seq<Seq<u8>>, int), BitstreamError>(
            record_unit(record, record_units(record, at, good)->Ok_0.1)->Err_0,
        ),
    decreases count,
{
    if count > good + 1 {
        lemma_record_units_fail(record, at, good, (count - 1) as nat);
    }
}

/// Brings the parameter sets of a configuration record into Annex B form.
pub fn avcc_header_to_annex_b(header: &[u8]) -> (converted: Result<Vec<u8>, BitstreamError>)
    requires
        header@.len() >= 6,
    ensures
        content(converted) == (match record_parameter_sets(header@) {
            Ok(units) => Ok(annex_b(units)),
            Err(error) => Err(error),
        }),
{
    let mut stream: Vec<u8> = Vec::new();
    let mut offset: usize = 6;
    let first: u8 = header[5];
    assert(first & 0x1f == first % 32) by (bit_vector);
    let sps_count: usize = (first & 0x1f) as usize;
    let ghost none = Seq::<Seq<u8>>::empty();
    match append_avcc_units(header, &mut offset, sps_count, &mut stream, Ghost(none)) {
        Ok(()) => {},
        Err(error) => return Err(error),
    }
    let ghost sps = record_units(header@, 6, sps_count as nat)->Ok_0.0;
    assert(none + sps =~= sps);
    if offset >= header.len() {
        return Err(BitstreamError::MissingPps);
    }
    let pps_count: usize = header[offset] as usize;
    offset += 1;
    match append_avcc_units(header, &mut offset, pps_count, &mut stream, Ghost(sps)) {
        Ok(()) => {},
        Err(error) => return Err(error),
    }
    Ok(stream)
}

/// Tells whether a stream has a start code.
fn contains_start(stream: &[u8]) -> (found: bool)
    ensures
        found == has_start(stream@),
{
    let mut i: usize = 0;
    while i < stream.len() && stream.len() - i >= 3
        invariant
            i <= stream@.len(),
            forall|at: int| 0 <= at < i ==> !is_start(stream@, at),
        decreases stream.len() - i,
    {
        if stream[i] == 0 && stream[i + 1] == 0 && stream[i + 2] == 1 {
            assert(is_start(stream@, i as int));
            return true;
        }
        i += 1;
    }
    false
}

/// Brings what an encoder emitted into Annex B form.
pub fn to_annex_b(stream: &[u8]) -> (converted: Result<Vec<u8>, BitstreamError>)
    ensures
        content(converted) == as_annex_b(stream@),
{
    if stream.len() == 0 {
        return Ok(bytes::copy(stream));
    }
    if contains_start(stream) {
        return Ok(bytes::copy(stream));
    }
    if stream[0] == 1 && stream.len() >= 7 {
        return avcc_header_to_annex_b(stream);
    }
    let mut out: Vec<u8> = Vec::new();
    let mut offset: usize = 0;
    let ghost mut units: Seq<Seq<u8>> = Seq::empty();
    let ghost whole = prefixed_units(stream@, 0);
    proof {
        if let Ok(rest) = whole {
            assert(units + rest =~= rest);
        }
    }
    while stream.len() - offset >= 4
        invariant
            offset <= stream@.len(),
            out@ == annex_b(units),
            whole == prefixed_units(stream@, 0),
            whole == (match prefixed_units(stream@, offset as int) {
                Ok(rest) => Ok::<Seq<Seq<u8>>, BitstreamError>(units + rest),
                Err(error) => Err(error),
            }),
            stream@.len() > 0,
            !has_start(stream@),
            !is_record(stream@),
            offset == 0 || units.len() > 0,
        decreases stream.len() - offset,
    {
        let length: usize = bytes::read_be32(stream, offset) as usize;
        offset += 4;
        if length == 0 || length > stream.len() - offset {
            return Err(BitstreamError::InvalidLength);
        }
        append_unit(&mut out, &stream[offset..offset + length]);
        proof {
            let unit = stream@.subrange(offset as int, offset + length);
            let more = units.push(unit);
            assert(more.drop_last() =~= units);
            if let Ok(rest) = prefixed_units(stream@, offset + length) {
                assert(units + (seq![unit] + rest) =~= more + rest);
            }
            units = more;
        }
        offset += length;
    }
    if offset != stream.len() || out.len() == 0 {
        return Err(BitstreamError::NotH264);
    }
    assert(units + Seq::<Seq<u8>>::empty() =~= units);
    Ok(out)
}

// ---------------------------------------------------------------------------
// Laws.
// ---------------------------------------------------------------------------

/// The NAL units of a stream, joined, are the stream from its first start code
/// on: no byte behind it is lost, doubled or moved.
pub proof fn law_units_join_to_stream(stream: Seq<u8>, from: int)
    requires
        0 <= from <= stream.len(),
    ensures
        units_from(stream, from).flatten() == stream.skip(next_start(stream, from)),
    decreases stream.len() - from,
{
    lemma_next_start(stream, from);
    let first = next_start(stream, from);
    if first < stream.len() {
        lemma_next_start(stream, first + 3);
        let next = next_start(stream, first + 3);
        law_units_join_to_stream(stream, next);
        lemma_next_start(stream, next);
        assert(next_start(stream, next) == next);
        let units = units_from(stream, from);
        assert(units.drop_first() =~= units_from(stream, next));
        assert(units.flatten() =~= stream.skip(first));
    } else {
        assert(stream.skip(first) =~= Seq::<u8>::empty());
    }
}

/// What follows a stream hides none of its NAL units: a stream with parameter
/// sets still has them when more data is put behind it.
pub proof fn law_parameter_sets_stay(stream: Seq<u8>, rest: Seq<u8>)
    requires
        has_parameter_sets(stream),
    ensures
        has_parameter_sets(stream + rest),
{
    assert forall|nal_type: u8| has_unit_of_type(stream, nal_type) implies has_unit_of_type(
        stream + rest,
        nal_type,
    ) by {
        let at = choose|at: int| #[trigger]
            is_start(stream, at) && at + 3 < stream.len() && stream[at + 3] % 32 == nal_type;
        assert(is_start(stream + rest, at));
        assert((stream + rest)[at + 3] == stream[at + 3]);
    }
}

/// A stream in Annex B form has a start code unless it is empty.
proof fn lemma_annex_b_has_start(units: Seq<Seq<u8>>)
    requires
        units.len() > 0,
    ensures
        has_start(annex_b(units)),
{
    let before = annex_b(units.drop_last());
    let stream = annex_b(units);
    assert(stream =~= before + start_code() + units.last());
    let at: int = before.len() + 1int;
    assert(stream[at] == start_code()[1]);
    assert(stream[at + 1] == start_code()[2]);
    assert(stream[at + 2] == start_code()[3]);
    assert(is_start(stream, at as int));
}

/// Converting twice is converting once: the Annex B form of a stream is its own
/// Annex B form.
pub proof fn law_annex_b_is_stable(stream: Seq<u8>)
    requires
        as_annex_b(stream) is Ok,
    ensures
        as_annex_b(as_annex_b(stream)->Ok_0) == as_annex_b(stream),
{
    if stream.len() > 0 && !has_start(stream) {
        let units = if is_record(stream) {
            record_parameter_sets(stream)->Ok_0
        } else {
            prefixed_units(stream, 0)->Ok_0
        };
        if units.len() > 0 {
            lemma_annex_b_has_start(units);
        }
    }
}

/// Some units, each behind its length in four bytes.
pub open spec fn length_prefixed(units: Seq<Seq<u8>>) -> Seq<u8>
    decreases units.len(),
{
    if units.len() == 0 {
        Seq::empty()
    } else {
        bytes::be32_bytes(units[0].len() as int) + units[0] + length_prefixed(units.drop_first())
    }
}

/// Units that can be written behind a length in four bytes.
pub open spec fn prefixable(units: Seq<Seq<u8>>) -> bool {
    forall|i: int| 0 <= i < units.len() ==> 0 < (#[trigger] units[i]).len() < 0x1_0000_0000
}

proof fn lemma_prefixed_units_parse(before: Seq<u8>, units: Seq<Seq<u8>>)
    requires
        prefixable(units),
    ensures
        prefixed_units(before + length_prefixed(units), before.len() as int) == Ok::<
            Seq<Seq<u8>>,
            BitstreamError,
        >(units),
    decreases units.len(),
{
    let stream = before + length_prefixed(units);
    let at = before.len() as int;
    if units.len() == 0 {
        assert(units =~= Seq::<Seq<u8>>::empty());
    } else {
        let unit = units[0];
        let rest = units.drop_first();
        let header = bytes::be32_bytes(unit.len() as int);
        let tail = unit + length_prefixed(rest);
        bytes::lemma_be32_round_trip(unit.len() as int, tail);
        assert(stream.skip(at) =~= header + tail);
        assert forall|i: int| 0 <= i < 4 implies stream[at + i] == (header + tail)[i] by {
            assert(stream.skip(at)[i] == stream[at + i]);
        }
        assert(bytes::be32(stream, at) == unit.len());
        let longer = before + header + unit;
        assert(longer + length_prefixed(rest) =~= stream);
        assert(prefixable(rest));
        lemma_prefixed_units_parse(longer, rest);
        assert(longer.len() == at + 4 + unit.len());
        assert(stream.subrange(at + 4, at + 4 + unit.len()) =~= unit);
        assert(seq![unit] + rest =~= units);
    }
}

/// Units written behind their lengths come out in Annex B form, all of them and
/// in order. Left out is data that is taken for something else: for an Annex B
/// stream, because three of its bytes make a start code, or for a configuration
/// record, because it is long enough and begins with a one.
pub proof fn law_length_prefixed_units_convert(units: Seq<Seq<u8>>)
    requires
        prefixable(units),
        !has_start(length_prefixed(units)),
        !is_record(length_prefixed(units)),
    ensures
        as_annex_b(length_prefixed(units)) == Ok::<Seq<u8>, BitstreamError>(annex_b(units)),
{
    let stream = length_prefixed(units);
    assert(Seq::<u8>::empty() + stream =~= stream);
    lemma_prefixed_units_parse(Seq::empty(), units);
    if stream.len() == 0 {
        assert(units.len() == 0) by {
            if units.len() > 0 {
                assert(stream.len() >= bytes::be32_bytes(units[0].len() as int).len());
            }
        }
        assert(annex_b(units) =~= stream);
    }
}

/// The two bytes that hold `value` in network order.
pub open spec fn be16_bytes(value: int) -> Seq<u8> {
    seq![(value / 256) as u8, (value % 256) as u8]
}

/// Some parameter sets, each behind its length in two bytes.
pub open spec fn sized_sets(sets: Seq<Seq<u8>>) -> Seq<u8>
    decreases sets.len(),
{
    if sets.len() == 0 {
        Seq::empty()
    } else {
        sized_sets(sets.drop_last()) + be16_bytes(sets.last().len() as int) + sets.last()
    }
}

/// Parameter sets that can be written behind a length in two bytes.
pub open spec fn sizable(sets: Seq<Seq<u8>>) -> bool {
    forall|i: int| 0 <= i < sets.len() ==> (#[trigger] sets[i]).len() <= 0xffff
}

proof fn lemma_record_units_parse(before: Seq<u8>, sets: Seq<Seq<u8>>, rest: Seq<u8>)
    requires
        sizable(sets),
    ensures
        record_units(before + sized_sets(sets) + rest, before.len() as int, sets.len()) == Ok::<
            (Seq<Seq<u8>>, int),
            BitstreamError,
        >((sets, (before + sized_sets(sets)).len() as int)),
    decreases sets.len(),
{
    let record = before + sized_sets(sets) + rest;
    if sets.len() == 0 {
        assert(sets =~= Seq::<Seq<u8>>::empty());
    } else {
        let set = sets.last();
        let front = sets.drop_last();
        let size = be16_bytes(set.len() as int);
        assert(sizable(front));
        lemma_record_units_parse(before, front, size + set + rest);
        assert(before + sized_sets(front) + (size + set + rest) =~= record);
        let at = (before + sized_sets(front)).len() as int;
        assert(record[at] == size[0]);
        assert(record[at + 1] == size[1]);
        assert(bytes::be16(record, at) == set.len());
        assert(record.subrange(at + 2, at + 2 + set.len()) =~= set);
        assert(front.push(set) =~= sets);
    }
}

/// A configuration record with the given sequence and picture parameter sets.
/// Its first six bytes are given: the version, four bytes that say nothing about
/// the sets, and the count of sequence parameter sets in the low bits of the last.
pub open spec fn configuration_record(
    head: Seq<u8>,
    sps: Seq<Seq<u8>>,
    pps: Seq<Seq<u8>>,
) -> Seq<u8> {
    head + sized_sets(sps) + seq![pps.len() as u8] + sized_sets(pps)
}

/// The parameter sets of a configuration record come out in Annex B form, the
/// sequence parameter sets first, all of them and in order. Left out is a record
/// that is taken for an Annex B stream because three of its bytes make a start
/// code.
pub proof fn law_configuration_records_convert(
    head: Seq<u8>,
    sps: Seq<Seq<u8>>,
    pps: Seq<Seq<u8>>,
)
    requires
        head.len() == 6,
        head[0] == 1,
        head[5] % 32 == sps.len(),
        pps.len() <= 255,
        sizable(sps),
        sizable(pps),
        !has_start(configuration_record(head, sps, pps)),
    ensures
        as_annex_b(configuration_record(head, sps, pps)) == Ok::<Seq<u8>, BitstreamError>(
            annex_b(sps + pps),
        ),
{
    let record = configuration_record(head, sps, pps);
    let count = seq![pps.len() as u8];
    lemma_record_units_parse(head, sps, count + sized_sets(pps));
    assert(head + sized_sets(sps) + (count + sized_sets(pps)) =~= record);
    let before = head + sized_sets(sps) + count;
    lemma_record_units_parse(before, pps, Seq::empty());
    assert(before + sized_sets(pps) + Seq::<u8>::empty() =~= record);
    assert(record[0] == head[0]);
    assert(record[5] == head[5]);
    assert(record[before.len() - 1] == count[0]);
}

/// What comes out is an Annex B stream, or nothing at all.
pub proof fn law_output_is_annex_b(stream: Seq<u8>)
    requires
        as_annex_b(stream) is Ok,
    ensures
        as_annex_b(stream)->Ok_0.len() == 0 || has_start(as_annex_b(stream)->Ok_0),
{
    if stream.len() > 0 && !has_start(stream) {
        let units = if is_record(stream) {
            record_parameter_sets(stream)->Ok_0
        } else {
            prefixed_units(stream, 0)->Ok_0
        };
        if units.len() > 0 {
            lemma_annex_b_has_start(units);
        }
    }
}

/// A unit as it is split off a stream: it begins with a start code of three bytes,
/// and where another unit follows it ends with that one's leading zero.
pub open spec fn split_unit(units: Seq<Seq<u8>>, i: int) -> Seq<u8> {
    seq![0u8, 0u8, 1u8] + units[i] + if i < units.len() - 1 {
        seq![0u8]
    } else {
        Seq::empty()
    }
}

/// Units that hold no start code keep their borders: split off their Annex B
/// stream, they come out one by one, in order.
pub proof fn law_units_split_back(units: Seq<Seq<u8>>)
    requires
        forall|i: int| 0 <= i < units.len() ==> !has_start(#[trigger] units[i]),
    ensures
        units_from(annex_b(units), 0) == Seq::new(units.len(), |i: int| split_unit(units, i)),
{
    let stream = annex_b(units);
    if units.len() == 0 {
        assert(units_from(stream, 0) =~= Seq::new(0, |i: int| split_unit(units, i)));
    } else {
        lemma_units_split_back(units, 0);
        lemma_offset(units, 0);
        assert(units_from(stream, 0) == units_from(stream, 1)) by {
            lemma_starts_only_at_borders(units);
            lemma_next_start(stream, 0);
            lemma_next_start(stream, 1);
            assert(is_start(stream, offset(units, 0) + 1));
            assert(!is_start(stream, 0));
        }
        assert(units_from(stream, 0) =~= Seq::new(units.len(), |i: int| split_unit(units, i)));
    }
}

/// Where the start code of a unit stands in the Annex B stream.
spec fn offset(units: Seq<Seq<u8>>, i: int) -> int
    decreases i,
{
    if i <= 0 {
        0
    } else {
        offset(units, i - 1) + 4 + units[i - 1].len()
    }
}

/// The stream holds a start code and the unit's bytes at the unit's place.
proof fn lemma_offset(units: Seq<Seq<u8>>, i: int)
    requires
        0 <= i < units.len(),
    ensures
        0 <= offset(units, i),
        offset(units, i) + 4 + units[i].len() <= annex_b(units).len(),
        i == units.len() - 1 ==> offset(units, i) + 4 + units[i].len() == annex_b(units).len(),
        annex_b(units).subrange(offset(units, i), offset(units, i) + 4 + units[i].len())
            == start_code() + units[i],
    decreases units.len(),
{
    let before = annex_b(units.drop_last());
    let stream = annex_b(units);
    assert(stream =~= before + (start_code() + units.last()));
    if i < units.len() - 1 {
        lemma_offset(units.drop_last(), i);
        lemma_offset_prefix(units, i);
        let end = offset(units, i) + 4 + units[i].len() as int;
        assert(stream.subrange(offset(units, i), end) =~= before.subrange(offset(units, i), end));
    } else {
        if i > 0 {
            lemma_offset(units.drop_last(), i - 1);
            lemma_offset_prefix(units, i - 1);
        }
        assert(offset(units, i) == before.len());
        assert(stream.subrange(before.len() as int, stream.len() as int) =~= start_code()
            + units.last());
    }
}

/// The place of a unit depends on the units before it alone.
proof fn lemma_offset_prefix(units: Seq<Seq<u8>>, i: int)
    requires
        0 <= i < units.len(),
    ensures
        offset(units, i) == offset(units.drop_last(), i),
    decreases i,
{
    if i > 0 {
        lemma_offset_prefix(units, i - 1);
    }
}

/// The only start codes in the stream are those before the units.
proof fn lemma_starts_only_at_borders(units: Seq<Seq<u8>>)
    requires
        forall|i: int| 0 <= i < units.len() ==> !has_start(#[trigger] units[i]),
    ensures
        forall|at: int| #[trigger]
            is_start(annex_b(units), at) ==> exists|i: int|
                0 <= i < units.len() && at == #[trigger] offset(units, i) + 1,
        forall|i: int|
            0 <= i < units.len() ==> is_start(annex_b(units), #[trigger] offset(units, i) + 1),
{
    let stream = annex_b(units);
    assert forall|i: int| 0 <= i < units.len() implies is_start(
        stream,
        #[trigger] offset(units, i) + 1,
    ) by {
        lemma_offset(units, i);
        let from = offset(units, i);
        let piece = stream.subrange(from, from + 4 + units[i].len());
        assert(piece[1] == 0 && piece[2] == 0 && piece[3] == 1);
    }
    assert forall|at: int| #[trigger] is_start(stream, at) implies exists|i: int|
        0 <= i < units.len() && at == #[trigger] offset(units, i) + 1 by {
        lemma_one_byte_place(units, at + 2);
        let i = choose|i: int|
            0 <= i < units.len() && #[trigger] offset(units, i) <= at + 2 < offset(units, i) + 4
                + units[i].len();
        lemma_offset(units, i);
        let from = offset(units, i);
        let piece = stream.subrange(from, from + 4 + units[i].len());
        assert(piece =~= start_code() + units[i]);
        assert(stream[at + 2] == piece[at + 2 - from]);
        if at + 2 - from >= 4 {
            // The last byte of the start code lies in the unit; so do the others, as
            // the byte before the unit is no zero.
            if at < from + 4 {
                assert(piece[3] == 1);
                assert(stream[from + 3] == piece[3]);
            } else {
                assert(units[i][at - from - 4] == piece[at - from]);
                assert(units[i][at + 1 - from - 4] == piece[at + 1 - from]);
                assert(units[i][at + 2 - from - 4] == piece[at + 2 - from]);
                assert(is_start(units[i], at - from - 4));
            }
        }
    }
}

/// Every byte of the stream belongs to a unit or to its start code.
proof fn lemma_one_byte_place(units: Seq<Seq<u8>>, at: int)
    requires
        0 <= at < annex_b(units).len(),
    ensures
        exists|i: int|
            0 <= i < units.len() && #[trigger] offset(units, i) <= at < offset(units, i) + 4
                + units[i].len(),
    decreases units.len(),
{
    let last = units.len() - 1;
    lemma_offset(units, last);
    if at >= offset(units, last) {
        assert(offset(units, last) <= at < offset(units, last) + 4 + units[last].len());
    } else {
        let before = units.drop_last();
        lemma_offset_prefix(units, last);
        assert(offset(units, last) == annex_b(before).len()) by {
            if last > 0 {
                lemma_offset(before, last - 1);
                lemma_offset_prefix(units, last - 1);
            }
        }
        lemma_one_byte_place(before, at);
        let i = choose|i: int|
            0 <= i < before.len() && #[trigger] offset(before, i) <= at < offset(before, i) + 4
                + before[i].len();
        lemma_offset_prefix(units, i);
        assert(offset(units, i) <= at < offset(units, i) + 4 + units[i].len());
    }
}

/// Units stand one behind the other.
proof fn lemma_offsets_increase(units: Seq<Seq<u8>>, i: int, j: int)
    requires
        0 <= i < j,
    ensures
        offset(units, i) + 4 + units[i].len() <= offset(units, j),
    decreases j,
{
    if i < j - 1 {
        lemma_offsets_increase(units, i, j - 1);
    }
}

/// From the start code of a unit on, the units come out one by one.
proof fn lemma_units_split_back(units: Seq<Seq<u8>>, i: int)
    requires
        forall|k: int| 0 <= k < units.len() ==> !has_start(#[trigger] units[k]),
        0 <= i < units.len(),
    ensures
        units_from(annex_b(units), offset(units, i) + 1) == Seq::new(
            (units.len() - i) as nat,
            |k: int| split_unit(units, i + k),
        ),
    decreases units.len() - i,
{
    let stream = annex_b(units);
    let from = offset(units, i);
    lemma_offset(units, i);
    lemma_starts_only_at_borders(units);
    assert(is_start(stream, offset(units, i) + 1));
    lemma_next_start(stream, from + 1);
    assert(next_start(stream, from + 1) == from + 1);
    lemma_next_start(stream, from + 4);
    let next = next_start(stream, from + 4);
    let piece = stream.subrange(from, from + 4 + units[i].len());
    if i < units.len() - 1 {
        let after = offset(units, i + 1);
        assert(after == from + 4 + units[i].len());
        assert(is_start(stream, offset(units, i + 1) + 1));
        assert(next == after + 1) by {
            if next != after + 1 {
                assert(next < after + 1);
                assert(is_start(stream, next));
                let k = choose|k: int| 0 <= k < units.len() && next == #[trigger] offset(units, k) + 1;
                if k > i + 1 {
                    lemma_offsets_increase(units, i + 1, k);
                } else if k < i {
                    lemma_offsets_increase(units, k, i);
                }
            }
        }
        lemma_offset(units, i + 1);
        let other = stream.subrange(after, after + 4 + units[i + 1].len());
        assert(other[0] == 0);
        assert(stream[after] == other[0]);
        assert(stream.subrange(from + 1, next) =~= split_unit(units, i)) by {
            assert forall|k: int| 0 <= k < next - from - 1 implies stream.subrange(from + 1, next)[k]
                == split_unit(units, i)[k] by {
                if k < 3 + units[i].len() {
                    assert(stream[from + 1 + k] == piece[k + 1]);
                }
            }
        }
        lemma_units_split_back(units, i + 1);
    } else {
        assert(next == stream.len()) by {
            if next < stream.len() {
                assert(is_start(stream, next));
                let k = choose|k: int| 0 <= k < units.len() && next == #[trigger] offset(units, k) + 1;
                if k < i {
                    lemma_offsets_increase(units, k, i);
                }
            }
        }
        assert(stream.subrange(from + 1, next) =~= split_unit(units, i)) by {
            assert forall|k: int| 0 <= k < next - from - 1 implies stream.subrange(from + 1, next)[k]
                == split_unit(units, i)[k] by {
                assert(stream[from + 1 + k] == piece[k + 1]);
            }
        }
        lemma_next_start(stream, stream.len() as int);
        assert(units_from(stream, next).len() == 0);
    }
    let rest = units_from(stream, next);
    let expected = Seq::new((units.len() - i) as nat, |k: int| split_unit(units, i + k));
    assert(units_from(stream, from + 1) =~= seq![stream.subrange(from + 1, next)] + rest);
    assert(units_from(stream, from + 1) =~= expected);
}

// ---------------------------------------------------------------------------
// What the forms are, byte by byte.
// ---------------------------------------------------------------------------

/// Nowhere in the stream do two zeros and a one follow each other.
pub open spec fn startless(stream: Seq<u8>) -> bool {
    forall|at: int|
        0 <= at && at + 3 <= stream.len() && #[trigger] stream[at] == 0 && stream[at + 1] == 0
            ==> stream[at + 2] != 1
}

/// A stream without two zeros and a one has no start code.
proof fn lemma_startless(stream: Seq<u8>)
    ensures
        startless(stream) <==> !has_start(stream),
{
    if !startless(stream) {
        let at = choose|at: int|
            0 <= at && at + 3 <= stream.len() && #[trigger] stream[at] == 0 && stream[at + 1] == 0
                && stream[at + 2] == 1;
        assert(is_start(stream, at));
    }
}

/// A stream with a start code anywhere is an Annex B stream and passes unchanged, however
/// long it is, and so does an empty one.
pub proof fn law_annex_b_passes_unchanged(stream: Seq<u8>)
    requires
        !startless(stream) || stream.len() == 0,
    ensures
        as_annex_b(stream) == Ok::<Seq<u8>, BitstreamError>(stream),
{
    lemma_startless(stream);
}

/// The byte behind two zeros and a one has this value in its low five bits, somewhere in
/// the stream.
pub open spec fn type_behind_start(stream: Seq<u8>, nal_type: int) -> bool {
    exists|at: int|
        {
            &&& 0 <= at
            &&& at + 4 <= stream.len()
            &&& #[trigger] stream[at] == 0
            &&& stream[at + 1] == 0
            &&& stream[at + 2] == 1
            &&& stream[at + 3] % 32 == nal_type
        }
}

/// A stream holds the parameter sets exactly where it has a unit of type seven and one of
/// type eight: each stands behind two zeros and a one, anywhere in the stream.
pub proof fn law_parameter_sets_are_types_seven_and_eight(stream: Seq<u8>)
    ensures
        has_parameter_sets(stream) <==> type_behind_start(stream, 7) && type_behind_start(
            stream,
            8,
        ),
{
    assert forall|nal_type: u8|
        has_unit_of_type(stream, nal_type) == #[trigger] type_behind_start(
            stream,
            nal_type as int,
        ) by {
        if type_behind_start(stream, nal_type as int) {
            let at = choose|at: int|
                {
                    &&& 0 <= at
                    &&& at + 4 <= stream.len()
                    &&& #[trigger] stream[at] == 0
                    &&& stream[at + 1] == 0
                    &&& stream[at + 2] == 1
                    &&& stream[at + 3] % 32 == nal_type
                };
            assert(is_start(stream, at));
        }
        if has_unit_of_type(stream, nal_type) {
            let at = choose|at: int| #[trigger]
                is_start(stream, at) && at + 3 < stream.len() && stream[at + 3] % 32 == nal_type;
            assert(stream[at] == 0);
        }
    }
    assert(has_unit_of_type(stream, 7u8) == type_behind_start(stream, 7u8 as int));
    assert(has_unit_of_type(stream, 8u8) == type_behind_start(stream, 8u8 as int));
}

/// Units are put one behind the other, each with three zeros and a one in front, whatever
/// their number and their length: no units give nothing, one unit gives itself behind its
/// start code, and the stream of some units followed by others is the one stream followed
/// by the other.
pub proof fn law_units_are_put_one_by_one(unit: Seq<u8>, first: Seq<Seq<u8>>, then: Seq<Seq<u8>>)
    ensures
        annex_b(Seq::empty()).len() == 0,
        annex_b(seq![unit]) == seq![0u8, 0u8, 0u8, 1u8] + unit,
        annex_b(first + then) == annex_b(first) + annex_b(then),
    decreases then.len(),
{
    assert(seq![unit].drop_last() =~= Seq::<Seq<u8>>::empty());
    assert(annex_b(Seq::<Seq<u8>>::empty()) =~= Seq::<u8>::empty());
    assert(annex_b(seq![unit]) =~= seq![0u8, 0u8, 0u8, 1u8] + unit);
    if then.len() == 0 {
        assert(first + then =~= first);
        assert(annex_b(first) + annex_b(then) =~= annex_b(first));
    } else {
        law_units_are_put_one_by_one(unit, first, then.drop_last());
        assert((first + then).drop_last() =~= first + then.drop_last());
        assert((first + then).last() == then.last());
        assert(annex_b(first + then) =~= annex_b(first) + annex_b(then));
    }
}

/// A unit behind its length is read, and reading goes on behind it.
proof fn lemma_prefixed_unit(before: Seq<u8>, unit: Seq<u8>, behind: Seq<u8>)
    requires
        0 < unit.len() < 0x1_0000_0000,
    ensures
        ({
            let stream = before + bytes::be32_bytes(unit.len() as int) + unit + behind;
            let next = before.len() + 4 + unit.len() as int;
            prefixed_units(stream, before.len() as int) == (match prefixed_units(stream, next) {
                Ok(rest) => Ok::<Seq<Seq<u8>>, BitstreamError>(seq![unit] + rest),
                Err(error) => Err(error),
            })
        }),
{
    let header = bytes::be32_bytes(unit.len() as int);
    let stream = before + header + unit + behind;
    let at = before.len() as int;
    bytes::lemma_be32_round_trip(unit.len() as int, Seq::empty());
    assert(header + Seq::<u8>::empty() =~= header);
    assert(stream[at] == header[0]);
    assert(stream[at + 1] == header[1]);
    assert(stream[at + 2] == header[2]);
    assert(stream[at + 3] == header[3]);
    assert(bytes::be32(stream, at) == bytes::be32(header, 0));
    assert(stream.subrange(at + 4, at + 4 + unit.len()) =~= unit);
}

/// Behind units that can be read, reading goes on with what follows them.
proof fn lemma_prefixed_units_go_on(before: Seq<u8>, units: Seq<Seq<u8>>, tail: Seq<u8>)
    requires
        prefixable(units),
    ensures
        prefixed_units(before + length_prefixed(units) + tail, before.len() as int) == (
        match prefixed_units(
            before + length_prefixed(units) + tail,
            (before + length_prefixed(units)).len() as int,
        ) {
            Ok(rest) => Ok::<Seq<Seq<u8>>, BitstreamError>(units + rest),
            Err(error) => Err(error),
        }),
    decreases units.len(),
{
    let stream = before + length_prefixed(units) + tail;
    let end = (before + length_prefixed(units)).len() as int;
    let last = prefixed_units(stream, end);
    if units.len() == 0 {
        if let Ok(rest) = last {
            assert(units + rest =~= rest);
        }
    } else {
        let unit = units[0];
        let rest = units.drop_first();
        let header = bytes::be32_bytes(unit.len() as int);
        let longer = before + header + unit;
        assert(longer + length_prefixed(rest) + tail =~= stream);
        assert(longer + (length_prefixed(rest) + tail) =~= stream);
        assert((longer + length_prefixed(rest)).len() == end);
        assert forall|i: int| 0 <= i < rest.len() implies 0 < (#[trigger] rest[i]).len()
            < 0x1_0000_0000 by {
            assert(rest[i] == units[i + 1]);
        }
        lemma_prefixed_units_go_on(longer, rest, tail);
        lemma_prefixed_unit(before, unit, length_prefixed(rest) + tail);
        if let Ok(more) = last {
            assert(seq![unit] + (rest + more) =~= units + more);
        }
    }
}

/// Output that is neither an Annex B stream nor a configuration record is a run of units
/// behind their lengths, however many they are. It comes out in Annex B form if it ends
/// with a unit. If one to three bytes are left, it is no H.264 stream; and if the next
/// four bytes announce nothing, or more than there is, the length is invalid.
pub proof fn law_units_are_read_behind_their_lengths(units: Seq<Seq<u8>>, tail: Seq<u8>)
    requires
        prefixable(units),
        startless(length_prefixed(units) + tail),
        (length_prefixed(units) + tail).len() < 7 || (length_prefixed(units) + tail)[0] != 1,
    ensures
        tail.len() == 0 ==> as_annex_b(length_prefixed(units) + tail) == Ok::<
            Seq<u8>,
            BitstreamError,
        >(annex_b(units)),
        0 < tail.len() < 4 ==> as_annex_b(length_prefixed(units) + tail) == Err::<
            Seq<u8>,
            BitstreamError,
        >(BitstreamError::NotH264),
        tail.len() >= 4 ==> ({
            let length = 0x100_0000 * tail[0] + 0x1_0000 * tail[1] + 0x100 * tail[2] + tail[3];
            length == 0 || length > tail.len() - 4 ==> as_annex_b(length_prefixed(units) + tail)
                == Err::<Seq<u8>, BitstreamError>(BitstreamError::InvalidLength)
        }),
{
    let stream = length_prefixed(units) + tail;
    lemma_startless(stream);
    lemma_prefixed_units_go_on(Seq::empty(), units, tail);
    assert(Seq::<u8>::empty() + length_prefixed(units) =~= length_prefixed(units));
    let end = length_prefixed(units).len() as int;
    if tail.len() == 0 {
        assert(stream =~= length_prefixed(units));
        assert(units + Seq::<Seq<u8>>::empty() =~= units);
        if stream.len() == 0 {
            assert(units.len() == 0) by {
                if units.len() > 0 {
                    assert(stream.len() >= bytes::be32_bytes(units[0].len() as int).len());
                }
            }
            assert(annex_b(units) =~= stream);
        }
    } else if tail.len() >= 4 {
        assert(forall|i: int| 0 <= i < tail.len() ==> stream[end + i] == tail[i]);
        assert(stream[end] == tail[0]);
        assert(bytes::be32(stream, end) == 0x100_0000 * tail[0] + 0x1_0000 * tail[1] + 0x100
            * tail[2] + tail[3]);
    }
}

/// Output that begins with a one, has seven bytes or more and no start code is a
/// configuration record: its parameter sets come out in Annex B form, or what is wrong
/// with it.
pub proof fn law_records_begin_with_a_one(stream: Seq<u8>)
    requires
        stream.len() >= 7,
        stream[0] == 1,
        startless(stream),
    ensures
        as_annex_b(stream) == (match record_parameter_sets(stream) {
            Ok(units) => Ok::<Seq<u8>, BitstreamError>(annex_b(units)),
            Err(error) => Err(error),
        }),
{
    lemma_startless(stream);
}

/// A configuration record gives all its sequence parameter sets, then all its picture
/// parameter sets, in order. The first are counted in the low five bits of byte five,
/// which they follow; the others are counted in the byte behind them. What stands behind
/// the last set does not count.
pub proof fn law_records_give_all_their_sets(
    head: Seq<u8>,
    sps: Seq<Seq<u8>>,
    pps: Seq<Seq<u8>>,
    rest: Seq<u8>,
)
    requires
        head.len() == 6,
        head[5] % 32 == sps.len(),
        pps.len() <= 255,
        sizable(sps),
        sizable(pps),
    ensures
        record_parameter_sets(configuration_record(head, sps, pps) + rest) == Ok::<
            Seq<Seq<u8>>,
            BitstreamError,
        >(sps + pps),
{
    let record = configuration_record(head, sps, pps) + rest;
    let count = seq![pps.len() as u8];
    lemma_record_units_parse(head, sps, count + sized_sets(pps) + rest);
    assert(head + sized_sets(sps) + (count + sized_sets(pps) + rest) =~= record);
    let before = head + sized_sets(sps) + count;
    lemma_record_units_parse(before, pps, rest);
    assert(before + sized_sets(pps) + rest =~= record);
    assert(record[5] == head[5]);
    assert(record[before.len() - 1] == count[0]);
}

/// Behind sets that can be read, the next one cannot: fewer than two bytes are left for
/// its length, or fewer than its length tells.
pub open spec fn cut_off(tail: Seq<u8>) -> bool {
    tail.len() < 2 || 0x100 * tail[0] + tail[1] > tail.len() - 2
}

/// How a set that is cut off is reported.
pub open spec fn cut_off_error(tail: Seq<u8>) -> BitstreamError {
    if tail.len() < 2 {
        BitstreamError::TruncatedRecord
    } else {
        BitstreamError::TruncatedParameterSet
    }
}

/// A set that is cut off fails the list that it belongs to.
proof fn lemma_cut_off_set(before: Seq<u8>, sets: Seq<Seq<u8>>, tail: Seq<u8>, count: nat)
    requires
        sizable(sets),
        sets.len() < count,
        cut_off(tail),
    ensures
        record_units(before + sized_sets(sets) + tail, before.len() as int, count) == Err::<
            (Seq<Seq<u8>>, int),
            BitstreamError,
        >(cut_off_error(tail)),
{
    let record = before + sized_sets(sets) + tail;
    lemma_record_units_parse(before, sets, tail);
    let at = (before + sized_sets(sets)).len() as int;
    if tail.len() >= 2 {
        assert(record[at] == tail[0]);
        assert(record[at + 1] == tail[1]);
    }
    assert(record_unit(record, at) == Err::<(Seq<u8>, int), BitstreamError>(cut_off_error(tail)));
    lemma_record_units_fail(record, before.len() as int, sets.len(), count);
}

/// A configuration record that is cut off is refused: inside the length of one of the sets
/// that it counts as a truncated record, inside the set itself as a truncated parameter
/// set, and behind the sequence parameter sets because the others are missing.
pub proof fn law_cut_off_records_are_refused(
    head: Seq<u8>,
    sps: Seq<Seq<u8>>,
    count: u8,
    pps: Seq<Seq<u8>>,
    tail: Seq<u8>,
)
    requires
        head.len() == 6,
        sizable(sps),
        sizable(pps),
    ensures
        sps.len() < head[5] % 32 && cut_off(tail) ==> record_parameter_sets(
            head + sized_sets(sps) + tail,
        ) == Err::<Seq<Seq<u8>>, BitstreamError>(cut_off_error(tail)),
        sps.len() == head[5] % 32 ==> record_parameter_sets(head + sized_sets(sps)) == Err::<
            Seq<Seq<u8>>,
            BitstreamError,
        >(BitstreamError::MissingPps),
        sps.len() == head[5] % 32 && pps.len() < count && cut_off(tail) ==> record_parameter_sets(
            head + sized_sets(sps) + seq![count] + sized_sets(pps) + tail,
        ) == Err::<Seq<Seq<u8>>, BitstreamError>(cut_off_error(tail)),
{
    if sps.len() < head[5] % 32 && cut_off(tail) {
        lemma_cut_off_set(head, sps, tail, (head[5] % 32) as nat);
        assert((head + sized_sets(sps) + tail)[5] == head[5]);
    }
    if sps.len() == head[5] % 32 {
        lemma_record_units_parse(head, sps, Seq::empty());
        assert(head + sized_sets(sps) + Seq::<u8>::empty() =~= head + sized_sets(sps));
        assert((head + sized_sets(sps))[5] == head[5]);
        if pps.len() < count && cut_off(tail) {
            let record = head + sized_sets(sps) + seq![count] + sized_sets(pps) + tail;
            let before = head + sized_sets(sps) + seq![count];
            lemma_record_units_parse(head, sps, seq![count] + sized_sets(pps) + tail);
            assert(head + sized_sets(sps) + (seq![count] + sized_sets(pps) + tail) =~= record);
            lemma_cut_off_set(before, pps, tail, count as nat);
            assert(record[5] == head[5]);
            assert(record[before.len() - 1] == count);
        }
    }
}

/// One set of a record is read where it stands: its length in two bytes, then as many
/// bytes, and reading stops behind them. A set that is cut off is reported as such.
pub proof fn law_set_is_read_behind_its_length(before: Seq<u8>, set: Seq<u8>, rest: Seq<u8>)
    requires
        set.len() <= 0xffff,
    ensures
        record_unit(
            before + seq![(set.len() / 0x100) as u8, (set.len() % 0x100) as u8] + set + rest,
            before.len() as int,
        ) == Ok::<(Seq<u8>, int), BitstreamError>((set, (before.len() + 2 + set.len()) as int)),
        cut_off(rest) ==> record_unit(before + rest, before.len() as int) == Err::<
            (Seq<u8>, int),
            BitstreamError,
        >(cut_off_error(rest)),
{
    let size = seq![(set.len() / 0x100) as u8, (set.len() % 0x100) as u8];
    let record = before + size + set + rest;
    let at = before.len() as int;
    assert(record[at] == size[0]);
    assert(record[at + 1] == size[1]);
    assert(record.subrange(at + 2, at + 2 + set.len()) =~= set);
    if rest.len() >= 2 {
        assert((before + rest)[at] == rest[0]);
        assert((before + rest)[at + 1] == rest[1]);
    }
}

/// The start code that is put in front of a unit is three zeros and a one.
pub proof fn law_start_code_is_three_zeros_and_a_one()
    ensures
        start_code().len() == 4,
        forall|i: int| 0 <= i < 3 ==> start_code()[i] == 0,
        start_code()[3] == 1,
{
}

/// A result of bytes is told by its bytes, or by its error.
pub proof fn law_content_is_the_bytes(bytes: Vec<u8>, error: BitstreamError)
    ensures
        content(Ok(bytes)) == Ok::<Seq<u8>, BitstreamError>(bytes@),
        content(Err(error)) == Err::<Seq<u8>, BitstreamError>(error),
{
}

} // verus!
