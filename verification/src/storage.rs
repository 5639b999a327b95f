//! Storage back-end wrappers: the SPIFFS binary-log store, the SD-card CSV
//! export, and the key scheme of the NVS store.
//!
//! Mounting, file I/O and driver calls happen outside the core; these types
//! compute the exact paths, file contents and keys the drivers then write,
//! so that everything format-shaped is pinned down here.

use vstd::prelude::*;
use vstd::string::StringExecFns;

use crate::mac::MacAddress;
use crate::store::{
    append_mac_log, decode_mac_log, encode_mac_log, spec_append_mac_log, spec_decode_mac_log,
    spec_encode_mac_log, StoreError,
};
use crate::text::{push_hex_byte, spec_dec, spec_hex_byte, u64_to_dec};

verus! {

/// The storage back-ends captured addresses can go to.
#[derive(Clone, Copy, Debug, PartialEq, Eq, Structural)]
pub enum StorageType {
    Nvs,
    Spiffs,
    SdCard,
}

/// Interface of a MAC store, for back-end drivers outside the core to
/// implement.
pub trait MacStorage {
    /// Persist one address.
    fn store_mac(&mut self, mac: &MacAddress) -> Result<(), StoreError>;

    /// Persist a batch of addresses.
    fn store_mac_batch(&mut self, macs: &[MacAddress]) -> Result<(), StoreError>;

    /// How many addresses the store holds.
    fn get_mac_count(&self) -> Result<usize, StoreError>;
}

/// A file's full path under a mount point.
pub open spec fn spec_storage_path(base: Seq<char>, filename: Seq<char>) -> Seq<char> {
    base + "/"@ + filename
}

/// Join a mount point and a file name.
pub fn storage_path(base: &str, filename: &str) -> (path: String)
    ensures
        path@ == spec_storage_path(base@, filename@),
{
    let mut path = String::from_str(base);
    path.append("/");
    path.append(filename);
    path
}

/// The NVS key one address is stored under.
pub open spec fn spec_nvs_mac_key(index: nat) -> Seq<char> {
    "mac_"@ + spec_dec(index)
}

/// Render the NVS key for the address at `index`.
pub fn nvs_mac_key(index: u32) -> (key: String)
    ensures
        key@ == spec_nvs_mac_key(index as nat),
{
    let mut key = String::from_str("mac_");
    let digits = u64_to_dec(index as u64);
    key.append(digits.as_str());
    key
}

/// The SPIFFS-backed binary log store. The flash driver mounts the
/// filesystem and moves the bytes; this type fixes the paths and contents.
pub struct SpiffsStorage {
    pub base_path: &'static str,
    pub initialized: bool,
}

impl SpiffsStorage {
    /// A store rooted at `base_path`; the caller has mounted it there.
    pub fn new(base_path: &'static str) -> (s: SpiffsStorage)
        ensures
            s.base_path == base_path,
            s.initialized,
    {
        SpiffsStorage { base_path, initialized: true }
    }

    /// The path and the complete serialized log for writing `macs` whole.
    pub fn write_macs_binary(&self, macs: &Vec<MacAddress>, filename: &str) -> (r: Result<
        (String, Vec<u8>),
        StoreError,
    >)
        requires
            macs@.len() <= u32::MAX,
        ensures
            !self.initialized ==> (r matches Err(e) && e is NotInitialized),
            self.initialized ==> (r matches Ok((path, data)) && path@ == spec_storage_path(
                self.base_path@,
                filename@,
            ) && data@ == spec_encode_mac_log(macs@)),
    {
        if !self.initialized {
            return Err(StoreError::NotInitialized);
        }
        let path = storage_path(self.base_path, filename);
        let data = encode_mac_log(macs);
        Ok((path, data))
    }

    /// The path and the new file contents for appending one address, given
    /// the current contents (or nothing, if the file does not exist yet).
    pub fn append_mac_binary(&self, mac: &MacAddress, filename: &str, existing: Option<&Vec<u8>>)
        -> (r: Result<(String, Vec<u8>), StoreError>)
        ensures
            !self.initialized ==> (r matches Err(e) && e is NotInitialized),
            self.initialized ==> ({
                let expect = spec_append_mac_log(
                    match existing {
                        Option::None => Option::None,
                        Option::Some(old_data) => Option::Some(old_data@),
                    },
                    *mac,
                );
                match r {
                    Ok((path, data)) => expect matches Ok(expected) && path@ == spec_storage_path(
                        self.base_path@,
                        filename@,
                    ) && data@ == expected,
                    Err(e) => expect matches Err(expected) && e == expected,
                }
            }),
    {
        if !self.initialized {
            return Err(StoreError::NotInitialized);
        }
        let path = storage_path(self.base_path, filename);
        match append_mac_log(existing, mac) {
            Ok(data) => Ok((path, data)),
            Err(e) => Err(e),
        }
    }

    /// Parse a log file's contents back into addresses. A file that does
    /// not exist reads as an empty log; a truncated body yields the records
    /// before the cut.
    pub fn read_macs_binary(&self, contents: Option<&[u8]>) -> (r: Result<
        Vec<MacAddress>,
        StoreError,
    >)
        ensures
            !self.initialized ==> (r matches Err(e) && e is NotInitialized),
            self.initialized ==> match contents {
                Option::None => r matches Ok(macs) && macs@ =~= Seq::<MacAddress>::empty(),
                Option::Some(data) => match r {
                    Ok(macs) => Option::Some(macs@) == spec_decode_mac_log(data@),
                    Err(e) => e is TruncatedHeader && data@.len()
                        < crate::store::RECORD_HEADER_LEN,
                },
            },
    {
        if !self.initialized {
            return Err(StoreError::NotInitialized);
        }
        match contents {
            Option::None => Ok(Vec::new()),
            Option::Some(data) => decode_mac_log(data),
        }
    }
}

/// The colon-separated lowercase hex form of an address, as exported to
/// CSV.
pub open spec fn spec_mac_csv(mac: MacAddress) -> Seq<char> {
    spec_hex_byte(mac.b0) + ":"@ + spec_hex_byte(mac.b1) + ":"@ + spec_hex_byte(mac.b2) + ":"@
        + spec_hex_byte(mac.b3) + ":"@ + spec_hex_byte(mac.b4) + ":"@ + spec_hex_byte(mac.b5)
}

/// One CSV row: index, address, timestamp.
pub open spec fn spec_csv_line(index: nat, mac: MacAddress, timestamp: nat) -> Seq<char> {
    spec_dec(index) + ","@ + spec_mac_csv(mac) + ","@ + spec_dec(timestamp) + "\n"@
}

/// The CSV rows for `macs`, indexed from `index` on.
pub open spec fn spec_csv_lines(macs: Seq<MacAddress>, index: nat, timestamp: nat) -> Seq<char>
    decreases macs.len(),
{
    if macs.len() == 0 {
        Seq::empty()
    } else {
        spec_csv_line(index, macs[0], timestamp) + spec_csv_lines(
            macs.drop_first(),
            index + 1,
            timestamp,
        )
    }
}

/// CSV rows grow at the end as addresses are appended.
pub proof fn lemma_csv_lines_snoc(macs: Seq<MacAddress>, index: nat, timestamp: nat, mac: MacAddress)
    ensures
        spec_csv_lines(macs.push(mac), index, timestamp) == spec_csv_lines(macs, index, timestamp)
            + spec_csv_line(index + macs.len(), mac, timestamp),
    decreases macs.len(),
{
    if macs.len() == 0 {
        assert(macs.push(mac).drop_first() =~= macs);
        assert(spec_csv_lines(macs.push(mac), index, timestamp) == spec_csv_line(index, mac, timestamp)
            + spec_csv_lines(macs, index + 1, timestamp));
        assert(Seq::<char>::empty() + spec_csv_line(index, mac, timestamp) =~= spec_csv_line(
            index,
            mac,
            timestamp,
        ));
        assert(spec_csv_line(index, mac, timestamp) + Seq::<char>::empty() =~= spec_csv_line(
            index,
            mac,
            timestamp,
        ));
    } else {
        assert(macs.push(mac).drop_first() =~= macs.drop_first().push(mac));
        lemma_csv_lines_snoc(macs.drop_first(), index + 1, timestamp, mac);
        assert(spec_csv_line(index, macs[0], timestamp) + (spec_csv_lines(
            macs.drop_first(),
            index + 1,
            timestamp,
        ) + spec_csv_line(index + macs.len(), mac, timestamp)) =~= (spec_csv_line(
            index,
            macs[0],
            timestamp,
        ) + spec_csv_lines(macs.drop_first(), index + 1, timestamp)) + spec_csv_line(
            index + macs.len(),
            mac,
            timestamp,
        ));
    }
}

/// Render one address as colon-separated lowercase hex.
pub fn mac_to_csv(mac: &MacAddress) -> (r: String)
    ensures
        r@ == spec_mac_csv(*mac),
{
    let mut r = String::new();
    push_hex_byte(&mut r, mac.b0);
    r.append(":");
    push_hex_byte(&mut r, mac.b1);
    r.append(":");
    push_hex_byte(&mut r, mac.b2);
    r.append(":");
    push_hex_byte(&mut r, mac.b3);
    r.append(":");
    push_hex_byte(&mut r, mac.b4);
    r.append(":");
    push_hex_byte(&mut r, mac.b5);
    r
}

/// Render one CSV row, newline included.
pub fn csv_line(index: u64, mac: &MacAddress, timestamp: u64) -> (r: String)
    ensures
        r@ == spec_csv_line(index as nat, *mac, timestamp as nat),
{
    let mut r = u64_to_dec(index);
    r.append(",");
    let hex = mac_to_csv(mac);
    r.append(hex.as_str());
    r.append(",");
    let ts = u64_to_dec(timestamp);
    r.append(ts.as_str());
    r.append("\n");
    r
}

/// The SD-card CSV export. The SPI driver mounts the card and moves the
/// bytes; this type fixes the exact CSV text.
pub struct SdCardStorage {
    pub base_path: &'static str,
    pub initialized: bool,
}

impl SdCardStorage {
    /// An export rooted at `base_path`; the caller has mounted the card.
    pub fn new(base_path: &'static str) -> (s: SdCardStorage)
        ensures
            s.base_path == base_path,
            s.initialized,
    {
        SdCardStorage { base_path, initialized: true }
    }

    /// The complete CSV file for `macs`: a header row, then one row per
    /// address, indexed in order, all stamped with `timestamp`.
    pub fn write_macs_csv(&self, macs: &Vec<MacAddress>, timestamp: u64) -> (r: Result<
        String,
        StoreError,
    >)
        requires
            macs@.len() <= u64::MAX,
        ensures
            !self.initialized ==> (r matches Err(e) && e is NotInitialized),
            self.initialized ==> (r matches Ok(content) && content@
                == "index,mac_address,timestamp\n"@ + spec_csv_lines(macs@, 0, timestamp as nat)),
    {
        if !self.initialized {
            return Err(StoreError::NotInitialized);
        }
        let mut content = String::from_str("index,mac_address,timestamp\n");
        let mut i: usize = 0;
        while i < macs.len()
            invariant
                i <= macs@.len(),
                macs@.len() <= u64::MAX,
                content@ == "index,mac_address,timestamp\n"@ + spec_csv_lines(
                    macs@.take(i as int),
                    0,
                    timestamp as nat,
                ),
            decreases macs@.len() - i,
        {
            proof {
                assert(macs@.take(i as int).push(macs@[i as int]) =~= macs@.take(i + 1));
                lemma_csv_lines_snoc(macs@.take(i as int), 0, timestamp as nat, macs@[i as int]);
            }
            let line = csv_line(i as u64, &macs[i], timestamp);
            content.append(line.as_str());
            proof {
                assert("index,mac_address,timestamp\n"@ + spec_csv_lines(
                    macs@.take(i as int),
                    0,
                    timestamp as nat,
                ) + spec_csv_line(i as nat, macs@[i as int], timestamp as nat)
                    =~= "index,mac_address,timestamp\n"@ + spec_csv_lines(
                    macs@.take(i + 1),
                    0,
                    timestamp as nat,
                ));
            }
            i += 1;
        }
        proof {
            assert(macs@.take(macs@.len() as int) =~= macs@);
        }
        Ok(content)
    }

    /// The text appended for one address: the header row first if the file
    /// is new, then the address's row (indexed 0, as the export does not
    /// track a running index across appends).
    pub fn append_mac(&self, mac: &MacAddress, timestamp: u64, file_exists: bool) -> (r: Result<
        String,
        StoreError,
    >)
        ensures
            !self.initialized ==> (r matches Err(e) && e is NotInitialized),
            self.initialized ==> (r matches Ok(content) && content@ == (
            if file_exists {
                spec_csv_line(0, *mac, timestamp as nat)
            } else {
                "index,mac_address,timestamp\n"@ + spec_csv_line(0, *mac, timestamp as nat)
            })),
    {
        if !self.initialized {
            return Err(StoreError::NotInitialized);
        }
        let line = csv_line(0, mac, timestamp);
        if file_exists {
            Ok(line)
        } else {
            let mut content = String::from_str("index,mac_address,timestamp\n");
            content.append(line.as_str());
            Ok(content)
        }
    }
}

} // verus!
