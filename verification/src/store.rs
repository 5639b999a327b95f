//! The append-only persisted record format and its admission policy.
//!
//! A stored MAC log is a 4-byte little-endian count followed by `count`
//! six-byte addresses. The count is a hint, not a guarantee: a reader stops
//! at the first short record and returns what it read, so a file truncated
//! by power loss or space exhaustion still yields its complete records.
//! Before a save, a free-space admission check gates the write; a refused
//! save produces nothing at all rather than a partial file.

use vstd::bytes::{
    lemma_auto_spec_u32_to_from_le_bytes, spec_u32_from_le_bytes, spec_u32_to_le_bytes,
    u32_from_le_bytes, u32_to_le_bytes,
};
use vstd::prelude::*;
use vstd::string::StringExecFns;

use crate::mac::{spec_mac_at, MacAddress, MAC_LEN};
use crate::text::{spec_dec, u64_to_dec};

verus! {

/// Bytes of the count header at the start of a stored log.
pub const RECORD_HEADER_LEN: usize = 4;

/// Failures of the storage logic.
#[derive(Clone, Copy, Debug, PartialEq, Eq, Structural)]
pub enum StoreError {
    /// The store was used before its backing was brought up.
    NotInitialized,
    /// The admission check refused a save: not enough free space.
    InsufficientSpace,
    /// A log's count header is itself incomplete.
    TruncatedHeader,
    /// A log already holds the largest representable count.
    CountOverflow,
}

impl StoreError {
    /// A short description for the display or the host log.
    pub fn message(&self) -> (msg: &'static str)
        ensures
            self is NotInitialized ==> msg@ == "storage not initialized"@,
            self is InsufficientSpace ==> msg@ == "not enough space"@,
            self is TruncatedHeader ==> msg@ == "truncated record header"@,
            self is CountOverflow ==> msg@ == "record count overflow"@,
    {
        match self {
            StoreError::NotInitialized => "storage not initialized",
            StoreError::InsufficientSpace => "not enough space",
            StoreError::TruncatedHeader => "truncated record header",
            StoreError::CountOverflow => "record count overflow",
        }
    }
}

/// The body of a stored log: each address's six bytes, in order.
pub open spec fn spec_records_bytes(macs: Seq<MacAddress>) -> Seq<u8>
    decreases macs.len(),
{
    if macs.len() == 0 {
        Seq::empty()
    } else {
        macs[0]@ + spec_records_bytes(macs.drop_first())
    }
}

/// A whole stored log: count header, then the body.
pub open spec fn spec_encode_mac_log(macs: Seq<MacAddress>) -> Seq<u8> {
    spec_u32_to_le_bytes(macs.len() as u32) + spec_records_bytes(macs)
}

/// The body is six bytes per address.
pub proof fn lemma_records_bytes_len(macs: Seq<MacAddress>)
    ensures
        spec_records_bytes(macs).len() == MAC_LEN * macs.len(),
    decreases macs.len(),
{
    if macs.len() > 0 {
        lemma_records_bytes_len(macs.drop_first());
    }
}

/// Byte `MAC_LEN * i + k` of the body is byte `k` of address `i`.
pub proof fn lemma_records_bytes_index(macs: Seq<MacAddress>, i: int, k: int)
    requires
        0 <= i < macs.len(),
        0 <= k < MAC_LEN,
    ensures
        spec_records_bytes(macs)[MAC_LEN * i + k] == macs[i]@[k],
    decreases i,
{
    lemma_records_bytes_len(macs.drop_first());
    if i == 0 {
    } else {
        lemma_records_bytes_index(macs.drop_first(), i - 1, k);
        assert(macs.drop_first()[i - 1] == macs[i]);
        assert(MAC_LEN * (i - 1) + k == MAC_LEN * i + k - MAC_LEN) by (nonlinear_arith);
    }
}

/// The body grows at the end as addresses are appended.
pub proof fn lemma_records_bytes_snoc(macs: Seq<MacAddress>, mac: MacAddress)
    ensures
        spec_records_bytes(macs.push(mac)) == spec_records_bytes(macs) + mac@,
    decreases macs.len(),
{
    if macs.len() == 0 {
        assert(macs.push(mac).drop_first() =~= macs);
        assert(spec_records_bytes(macs.push(mac)) =~= spec_records_bytes(macs) + mac@);
    } else {
        assert(macs.push(mac).drop_first() =~= macs.drop_first().push(mac));
        lemma_records_bytes_snoc(macs.drop_first(), mac);
        assert(macs[0]@ + (spec_records_bytes(macs.drop_first()) + mac@) =~= (macs[0]@
            + spec_records_bytes(macs.drop_first())) + mac@);
    }
}

/// Serialize a log: count header, then each address's raw bytes.
pub fn encode_mac_log(macs: &Vec<MacAddress>) -> (data: Vec<u8>)
    requires
        macs@.len() <= u32::MAX,
    ensures
        data@ == spec_encode_mac_log(macs@),
        data@.len() == RECORD_HEADER_LEN + MAC_LEN * macs@.len(),
{
    let count = macs.len() as u32;
    let mut data = u32_to_le_bytes(count);
    let mut i: usize = 0;
    while i < macs.len()
        invariant
            i <= macs@.len(),
            macs@.len() <= u32::MAX,
            data@ == spec_u32_to_le_bytes(macs@.len() as u32) + spec_records_bytes(
                macs@.take(i as int),
            ),
        decreases macs@.len() - i,
    {
        proof {
            assert(macs@.take(i as int).push(macs@[i as int]) =~= macs@.take(i + 1));
            lemma_records_bytes_snoc(macs@.take(i as int), macs@[i as int]);
        }
        macs[i].append_to(&mut data);
        proof {
            assert(spec_u32_to_le_bytes(macs@.len() as u32) + spec_records_bytes(
                macs@.take(i as int),
            ) + macs@[i as int]@ =~= spec_u32_to_le_bytes(macs@.len() as u32)
                + spec_records_bytes(macs@.take(i + 1)));
        }
        i += 1;
    }
    proof {
        assert(macs@.take(macs@.len() as int) =~= macs@);
        lemma_records_bytes_len(macs@);
        lemma_auto_spec_u32_to_from_le_bytes();
    }
    data
}

/// The count a log's header claims.
pub open spec fn spec_header_count(data: Seq<u8>) -> nat
    recommends
        data.len() >= RECORD_HEADER_LEN,
{
    spec_u32_from_le_bytes(data.subrange(0, RECORD_HEADER_LEN as int)) as nat
}

/// How many complete six-byte records the body actually holds.
pub open spec fn spec_body_records(data: Seq<u8>) -> nat
    recommends
        data.len() >= RECORD_HEADER_LEN,
{
    ((data.len() - RECORD_HEADER_LEN) / MAC_LEN as int) as nat
}

/// How many records a tolerant reader returns: the claimed count, capped by
/// what the body really holds.
pub open spec fn spec_read_records(data: Seq<u8>) -> nat
    recommends
        data.len() >= RECORD_HEADER_LEN,
{
    if spec_header_count(data) <= spec_body_records(data) {
        spec_header_count(data)
    } else {
        spec_body_records(data)
    }
}

/// What decoding a log yields: nothing if even the header is short,
/// otherwise the complete records in order, stopping at the first short
/// one regardless of the claimed count.
pub open spec fn spec_decode_mac_log(data: Seq<u8>) -> Option<Seq<MacAddress>> {
    if data.len() < RECORD_HEADER_LEN {
        Option::None
    } else {
        Option::Some(
            Seq::new(
                spec_read_records(data),
                |i: int| spec_mac_at(data, RECORD_HEADER_LEN + MAC_LEN * i),
            ),
        )
    }
}

/// Parse a stored log. A body shorter than the header's claim is not an
/// error: the records read before the short one are returned. Only a log
/// too short to hold the header at all is refused.
pub fn decode_mac_log(data: &[u8]) -> (r: Result<Vec<MacAddress>, StoreError>)
    ensures
        match r {
            Ok(macs) => Option::Some(macs@) == spec_decode_mac_log(data@),
            Err(e) => e is TruncatedHeader && data@.len() < RECORD_HEADER_LEN,
        },
{
    if data.len() < RECORD_HEADER_LEN {
        return Err(StoreError::TruncatedHeader);
    }
    let mut header: Vec<u8> = Vec::new();
    header.push(data[0]);
    header.push(data[1]);
    header.push(data[2]);
    header.push(data[3]);
    proof {
        assert(header@ =~= data@.subrange(0, RECORD_HEADER_LEN as int));
    }
    let count = u32_from_le_bytes(header.as_slice());
    let mut macs: Vec<MacAddress> = Vec::new();
    let mut i: usize = 0;
    let mut offset: usize = RECORD_HEADER_LEN;
    while i < count as usize && data.len() - offset >= MAC_LEN
        invariant
            data@.len() >= RECORD_HEADER_LEN,
            count == spec_u32_from_le_bytes(data@.subrange(0, RECORD_HEADER_LEN as int)),
            i <= count as usize,
            offset == RECORD_HEADER_LEN + MAC_LEN * i,
            offset <= data@.len(),
            macs@.len() == i,
            forall|k: int|
                0 <= k < i ==> macs@[k] == spec_mac_at(data@, RECORD_HEADER_LEN + MAC_LEN * k),
        decreases count as usize - i,
    {
        macs.push(MacAddress::from_slice(data, offset));
        offset += MAC_LEN;
        i += 1;
    }
    proof {
        if i < count as usize {
            assert(MAC_LEN * i <= data@.len() - RECORD_HEADER_LEN < MAC_LEN * i + MAC_LEN);
            assert((data@.len() - RECORD_HEADER_LEN) / MAC_LEN as int == i) by (nonlinear_arith)
                requires
                    MAC_LEN * i <= data@.len() - RECORD_HEADER_LEN < MAC_LEN * i + MAC_LEN,
                    0 <= i,
            ;
        }
        assert(i as nat == spec_read_records(data@));
        assert(macs@ =~= spec_decode_mac_log(data@).unwrap());
    }
    Ok(macs)
}

/// Decoding inverts encoding: a log written whole reads back as exactly
/// the addresses that were saved, in order (and so as the same set).
pub proof fn lemma_mac_log_roundtrip(macs: Seq<MacAddress>)
    requires
        macs.len() <= u32::MAX,
    ensures
        spec_decode_mac_log(spec_encode_mac_log(macs)) == Option::Some(macs),
{
    let data = spec_encode_mac_log(macs);
    lemma_auto_spec_u32_to_from_le_bytes();
    lemma_records_bytes_len(macs);
    assert(data.subrange(0, RECORD_HEADER_LEN as int) =~= spec_u32_to_le_bytes(macs.len() as u32));
    assert(spec_header_count(data) == macs.len());
    assert(data.len() - RECORD_HEADER_LEN == MAC_LEN * macs.len());
    assert((MAC_LEN * macs.len()) as int / MAC_LEN as int == macs.len()) by (nonlinear_arith);
    assert(spec_read_records(data) == macs.len());
    assert forall|i: int| 0 <= i < macs.len() implies spec_mac_at(
        data,
        RECORD_HEADER_LEN + MAC_LEN * i,
    ) == macs[i] by {
        assert forall|k: int| 0 <= k < MAC_LEN implies data[RECORD_HEADER_LEN + MAC_LEN * i + k]
            == macs[i]@[k] by {
            lemma_records_bytes_index(macs, i, k);
            assert(MAC_LEN * i + k < MAC_LEN * macs.len()) by (nonlinear_arith)
                requires
                    0 <= k < MAC_LEN,
                    0 <= i < macs.len(),
            ;
            assert(data[RECORD_HEADER_LEN + MAC_LEN * i + k] == spec_records_bytes(macs)[MAC_LEN * i
                + k]);
        }
        lemma_mac_at_fields(data, RECORD_HEADER_LEN + MAC_LEN * i, macs[i]);
    }
    assert(spec_decode_mac_log(data).unwrap() =~= macs);
}

/// Truncation tolerance: cut anywhere into the last record of an encoded
/// log, and decoding still succeeds, returning exactly the earlier records.
pub proof fn lemma_mac_log_truncated(macs: Seq<MacAddress>, cut: int)
    requires
        1 <= macs.len() <= u32::MAX,
        0 < cut <= MAC_LEN,
    ensures
        ({
            let data = spec_encode_mac_log(macs);
            spec_decode_mac_log(data.take(data.len() - cut)) == Option::Some(
                macs.take(macs.len() - 1),
            )
        }),
{
    let n = macs.len() as int;
    let data = spec_encode_mac_log(macs);
    lemma_auto_spec_u32_to_from_le_bytes();
    lemma_records_bytes_len(macs);
    let short = data.take(data.len() - cut);
    assert(short.len() == RECORD_HEADER_LEN + MAC_LEN * n - cut);
    assert(MAC_LEN * n - cut >= MAC_LEN * (n - 1)) by (nonlinear_arith)
        requires
            0 < cut <= MAC_LEN,
            n >= 1,
    ;
    assert(short.subrange(0, RECORD_HEADER_LEN as int) =~= data.subrange(
        0,
        RECORD_HEADER_LEN as int,
    ));
    assert(data.subrange(0, RECORD_HEADER_LEN as int) =~= spec_u32_to_le_bytes(macs.len() as u32));
    assert(spec_header_count(short) == n);
    assert(MAC_LEN * (n - 1) <= short.len() - RECORD_HEADER_LEN < MAC_LEN * (n - 1) + MAC_LEN)
        by (nonlinear_arith)
        requires
            short.len() == RECORD_HEADER_LEN + MAC_LEN * n - cut,
            0 < cut <= MAC_LEN,
            n >= 1,
    ;
    assert((short.len() - RECORD_HEADER_LEN) / MAC_LEN as int == n - 1) by (nonlinear_arith)
        requires
            MAC_LEN * (n - 1) <= short.len() - RECORD_HEADER_LEN < MAC_LEN * (n - 1) + MAC_LEN,
            n >= 1,
    ;
    assert(spec_read_records(short) == n - 1);
    assert forall|i: int| 0 <= i < n - 1 implies spec_mac_at(short, RECORD_HEADER_LEN + MAC_LEN * i)
        == macs[i] by {
        assert forall|k: int| 0 <= k < MAC_LEN implies short[RECORD_HEADER_LEN + MAC_LEN * i + k]
            == macs[i]@[k] by {
            lemma_records_bytes_index(macs, i, k);
            assert(MAC_LEN * i + k < MAC_LEN * (n - 1) + MAC_LEN) by (nonlinear_arith)
                requires
                    0 <= k < MAC_LEN,
                    0 <= i < n - 1,
            ;
            assert(short[RECORD_HEADER_LEN + MAC_LEN * i + k] == data[RECORD_HEADER_LEN + MAC_LEN
                * i + k]);
            assert(data[RECORD_HEADER_LEN + MAC_LEN * i + k] == spec_records_bytes(macs)[MAC_LEN * i
                + k]);
        }
        lemma_mac_at_fields(short, RECORD_HEADER_LEN + MAC_LEN * i, macs[i]);
    }
    assert(spec_decode_mac_log(short).unwrap() =~= macs.take(n - 1));
}

/// An address whose six bytes each match a byte string at `start` equals
/// the address read from that byte string.
proof fn lemma_mac_at_fields(bytes: Seq<u8>, start: int, mac: MacAddress)
    requires
        0 <= start,
        start + MAC_LEN <= bytes.len(),
        forall|k: int| 0 <= k < MAC_LEN ==> bytes[start + k] == mac@[k],
    ensures
        spec_mac_at(bytes, start) == mac,
{
    assert(bytes[start + 0] == mac@[0]);
    assert(bytes[start + 1] == mac@[1]);
    assert(bytes[start + 2] == mac@[2]);
    assert(bytes[start + 3] == mac@[3]);
    assert(bytes[start + 4] == mac@[4]);
    assert(bytes[start + 5] == mac@[5]);
}

/// Space admission: there is room exactly when the free bytes cover the
/// need.
pub fn has_enough_space(total_bytes: usize, used_bytes: usize, needed_bytes: usize) -> (r: bool)
    requires
        used_bytes <= total_bytes,
    ensures
        r <==> needed_bytes <= total_bytes - used_bytes,
{
    total_bytes - used_bytes >= needed_bytes
}

/// The name a scan's log is saved under, derived from a wall-clock
/// timestamp to avoid collisions.
pub open spec fn spec_scan_file_name(timestamp: u64) -> Seq<char> {
    "scan_"@ + spec_dec(timestamp as nat) + ".bin"@
}

/// Render the log file name for `timestamp`.
pub fn scan_file_name(timestamp: u64) -> (name: String)
    ensures
        name@ == spec_scan_file_name(timestamp),
{
    let mut name = String::from_str("scan_");
    let digits = u64_to_dec(timestamp);
    name.append(digits.as_str());
    name.append(".bin");
    name
}

/// Plan a save: check admission against the free space, and produce the
/// file name and the complete serialized log. A refused save produces no
/// bytes at all, so nothing partial can reach the flash.
pub fn save_mac_log(macs: &Vec<MacAddress>, total_bytes: usize, used_bytes: usize, timestamp: u64)
    -> (r: Result<(String, Vec<u8>), StoreError>)
    requires
        used_bytes <= total_bytes,
        macs@.len() <= u32::MAX,
        RECORD_HEADER_LEN + MAC_LEN * macs@.len() <= usize::MAX,
    ensures
        r is Ok <==> RECORD_HEADER_LEN + MAC_LEN * macs@.len() <= total_bytes - used_bytes,
        r matches Ok((name, data)) ==> name@ == spec_scan_file_name(timestamp) && data@
            == spec_encode_mac_log(macs@),
        r matches Err(e) ==> e is InsufficientSpace,
{
    let needed_bytes = RECORD_HEADER_LEN + MAC_LEN * macs.len();
    if !has_enough_space(total_bytes, used_bytes, needed_bytes) {
        return Err(StoreError::InsufficientSpace);
    }
    Ok((scan_file_name(timestamp), encode_mac_log(macs)))
}

/// What appending one address to a stored log produces: a fresh log of one
/// record when there was no file, otherwise the old body under a count one
/// higher, with the new address at the end. A short header refuses the
/// append, as does a count that cannot grow.
pub open spec fn spec_append_mac_log(existing: Option<Seq<u8>>, mac: MacAddress) -> Result<
    Seq<u8>,
    StoreError,
> {
    match existing {
        Option::None => Result::Ok(spec_encode_mac_log(seq![mac])),
        Option::Some(old_data) => {
            if old_data.len() < RECORD_HEADER_LEN {
                Result::Err(StoreError::TruncatedHeader)
            } else if spec_header_count(old_data) == u32::MAX {
                Result::Err(StoreError::CountOverflow)
            } else {
                Result::Ok(
                    spec_u32_to_le_bytes((spec_header_count(old_data) + 1) as u32)
                        + old_data.subrange(RECORD_HEADER_LEN as int, old_data.len() as int) + mac@,
                )
            }
        },
    }
}

/// Appending to a log: a fresh file holds a count of one and the single
/// address; an existing one gets its count bumped and the address's bytes
/// added at the end. An existing file whose header is short is refused, as
/// is one whose count cannot grow.
pub fn append_mac_log(existing: Option<&Vec<u8>>, mac: &MacAddress) -> (r: Result<
    Vec<u8>,
    StoreError,
>)
    ensures
        ({
            let expect = spec_append_mac_log(
                match existing {
                    Option::None => Option::None,
                    Option::Some(old_data) => Option::Some(old_data@),
                },
                *mac,
            );
            match r {
                Ok(data) => expect matches Ok(expected) && data@ == expected,
                Err(e) => expect matches Err(expected) && e == expected,
            }
        }),
{
    match existing {
        Option::None => {
            let mut data = u32_to_le_bytes(1);
            mac.append_to(&mut data);
            proof {
                assert(seq![*mac].drop_first() =~= Seq::<MacAddress>::empty());
                assert(spec_records_bytes(Seq::<MacAddress>::empty()) =~= Seq::<u8>::empty());
                assert(mac@ + Seq::<u8>::empty() =~= mac@);
                assert(seq![*mac][0] == *mac);
                assert(spec_records_bytes(seq![*mac]) =~= mac@);
                assert(data@ =~= spec_encode_mac_log(seq![*mac]));
            }
            Ok(data)
        },
        Option::Some(old_data) => {
            if old_data.len() < RECORD_HEADER_LEN {
                return Err(StoreError::TruncatedHeader);
            }
            let mut header: Vec<u8> = Vec::new();
            header.push(old_data[0]);
            header.push(old_data[1]);
            header.push(old_data[2]);
            header.push(old_data[3]);
            proof {
                assert(header@ =~= old_data@.subrange(0, RECORD_HEADER_LEN as int));
            }
            let count = u32_from_le_bytes(header.as_slice());
            if count == u32::MAX {
                return Err(StoreError::CountOverflow);
            }
            let mut data = u32_to_le_bytes(count + 1);
            let mut i: usize = RECORD_HEADER_LEN;
            while i < old_data.len()
                invariant
                    RECORD_HEADER_LEN <= i <= old_data@.len(),
                    data@ == spec_u32_to_le_bytes((spec_header_count(old_data@) + 1) as u32)
                        + old_data@.subrange(RECORD_HEADER_LEN as int, i as int),
                    count == spec_header_count(old_data@),
                    count < u32::MAX,
                decreases old_data@.len() - i,
            {
                data.push(old_data[i]);
                proof {
                    assert(old_data@.subrange(RECORD_HEADER_LEN as int, i as int).push(
                        old_data@[i as int],
                    ) =~= old_data@.subrange(RECORD_HEADER_LEN as int, i + 1));
                }
                i += 1;
            }
            mac.append_to(&mut data);
            Ok(data)
        },
    }
}

} // verus!
