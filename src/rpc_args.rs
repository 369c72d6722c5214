//! Arguments of the typed calls, and their checked form: block selectors
//! default to the latest block, and addresses and topics must be `0x`
//! followed by the hex digits of exactly 20 or 32 bytes.
use vstd::prelude::*;

verus! {

/// A named block, or a block by number.
pub enum BlockTag {
    Latest,
    Finalized,
    Safe,
    Earliest,
    Pending,
    Number(u64),
}

/// A block by number, or by tag.
pub enum BlockSpec {
    Number(u128),
    Tag(BlockTag),
}

pub struct GetLogsArgs {
    pub from_block: Option<BlockSpec>,
    pub to_block: Option<BlockSpec>,
    pub addresses: Vec<String>,
    pub topics: Option<Vec<String>>,
}

pub struct FeeHistoryArgs {
    pub block_count: u128,
    pub newest_block: BlockSpec,
    pub reward_percentiles: Option<Vec<u8>>,
}

pub struct GetTransactionCountArgs {
    pub address: String,
    pub block: BlockSpec,
}

/// A caller-supplied value that is not the hex it should be.
pub enum DataFormatError {
    InvalidHex(String),
}

/// The checked arguments of a log query.
pub struct GetLogsParam {
    pub from_block: BlockSpec,
    pub to_block: BlockSpec,
    pub address: Vec<Vec<u8>>,
    pub topics: Vec<Vec<u8>>,
}

/// The checked arguments of a transaction-count query.
pub struct GetTransactionCountParams {
    pub address: Vec<u8>,
    pub block: BlockSpec,
}

/// The arguments of a fee-history query, with the percentiles filled in.
pub struct FeeHistoryParams {
    pub block_count: u128,
    pub highest_block: BlockSpec,
    pub reward_percentiles: Vec<u8>,
}

/// The value of a hex digit, either case.
pub open spec fn hex_value(c: char) -> Option<u8> {
    if '0' <= c <= '9' {
        Some((c as u32 - '0' as u32) as u8)
    } else if 'a' <= c <= 'f' {
        Some((c as u32 - 'a' as u32 + 10) as u8)
    } else if 'A' <= c <= 'F' {
        Some((c as u32 - 'A' as u32 + 10) as u8)
    } else {
        None
    }
}

/// `s` is `0x` followed by the hex digits of exactly `n` bytes.
pub open spec fn is_fixed_hex(s: Seq<char>, n: nat) -> bool {
    &&& s.len() == 2 + 2 * n
    &&& s[0] == '0'
    &&& s[1] == 'x'
    &&& forall|i: int| 2 <= i < s.len() ==> (#[trigger] hex_value(s[i])) is Some
}

/// The bytes that the digits of `s`, after its `0x`, stand for.
pub open spec fn hex_bytes(s: Seq<char>, n: nat) -> Seq<u8> {
    Seq::new(
        n,
        |i: int|
            (16 * hex_value(s[2 + 2 * i]).unwrap() + hex_value(s[3 + 2 * i]).unwrap()) as u8,
    )
}

fn digit(c: char) -> (r: Option<u8>)
    ensures
        r == hex_value(c),
{
    if '0' <= c && c <= '9' {
        Some((c as u32 - '0' as u32) as u8)
    } else if 'a' <= c && c <= 'f' {
        Some((c as u32 - 'a' as u32 + 10) as u8)
    } else if 'A' <= c && c <= 'F' {
        Some((c as u32 - 'A' as u32 + 10) as u8)
    } else {
        None
    }
}

/// Reads `0x` and the hex digits of exactly `n` bytes.
pub fn parse_fixed_hex(s: &str, n: usize) -> (r: Option<Vec<u8>>)
    ensures
        r is Some <==> is_fixed_hex(s@, n as nat),
        r matches Some(b) ==> b@ == hex_bytes(s@, n as nat),
{
    let len = s.unicode_len();
    if n > (usize::MAX - 2) / 2 || len != 2 + 2 * n {
        return None;
    }
    if s.get_char(0) != '0' || s.get_char(1) != 'x' {
        return None;
    }
    let mut out: Vec<u8> = Vec::new();
    let mut i: usize = 0;
    while i < n
        invariant
            len == s@.len(),
            len == 2 + 2 * n,
            i <= n,
            out@.len() == i,
            forall|k: int| 2 <= k < 2 + 2 * i ==> (#[trigger] hex_value(s@[k])) is Some,
            forall|k: int| 0 <= k < i ==> out@[k] == hex_bytes(s@, n as nat)[k],
        decreases n - i,
    {
        let hi = digit(s.get_char(2 + 2 * i));
        let lo = digit(s.get_char(3 + 2 * i));
        match (hi, lo) {
            (Some(h), Some(l)) => {
                out.push(16 * h + l);
            },
            _ => {
                return None;
            },
        }
        i = i + 1;
    }
    assert(out@ =~= hex_bytes(s@, n as nat));
    Some(out)
}

/// A hex value of `n` bytes, or the error that names the text.
fn fixed_hex_or_error(s: &String, n: usize) -> (r: Result<Vec<u8>, DataFormatError>)
    ensures
        r is Ok <==> is_fixed_hex(s@, n as nat),
        r matches Ok(b) ==> b@ == hex_bytes(s@, n as nat),
        r matches Err(DataFormatError::InvalidHex(t)) ==> t == s,
{
    match parse_fixed_hex(s.as_str(), n) {
        Some(b) => Ok(b),
        None => Err(DataFormatError::InvalidHex(s.clone())),
    }
}

/// Every text of `v` is the hex of `n` bytes.
pub open spec fn all_fixed_hex(v: Seq<String>, n: nat) -> bool {
    forall|i: int| 0 <= i < v.len() ==> is_fixed_hex((#[trigger] v[i])@, n)
}

/// `v[i]` is the first text of `v` that is not the hex of `n` bytes.
pub open spec fn first_not_fixed_hex(v: Seq<String>, n: nat, i: int) -> bool {
    &&& 0 <= i < v.len()
    &&& !is_fixed_hex(v[i]@, n)
    &&& forall|j: int| 0 <= j < i ==> is_fixed_hex((#[trigger] v[j])@, n)
}

/// Reads each text of `v` as the hex of `n` bytes; the first that is not
/// ends it with an error that names it.
pub fn parse_all_fixed_hex(v: &Vec<String>, n: usize) -> (r: Result<Vec<Vec<u8>>, DataFormatError>)
    ensures
        r is Ok <==> all_fixed_hex(v@, n as nat),
        r matches Ok(bs) ==> bs@.len() == v@.len() && forall|i: int|
            0 <= i < v@.len() ==> (#[trigger] bs@[i])@ == hex_bytes(v@[i]@, n as nat),
        r matches Err(DataFormatError::InvalidHex(t)) ==> exists|i: int|
            #[trigger] first_not_fixed_hex(v@, n as nat, i) && v@[i] == t,
{
    let mut out: Vec<Vec<u8>> = Vec::new();
    let mut i: usize = 0;
    while i < v.len()
        invariant
            i <= v@.len(),
            out@.len() == i,
            forall|k: int| 0 <= k < i ==> is_fixed_hex((#[trigger] v@[k])@, n as nat),
            forall|k: int|
                0 <= k < i ==> (#[trigger] out@[k])@ == hex_bytes(v@[k]@, n as nat),
        decreases v@.len() - i,
    {
        match fixed_hex_or_error(&v[i], n) {
            Ok(b) => out.push(b),
            Err(e) => {
                assert(first_not_fixed_hex(v@, n as nat, i as int));
                return Err(e);
            },
        }
        i = i + 1;
    }
    Ok(out)
}

/// The block that an absent selector stands for.
pub fn default_block(b: Option<BlockSpec>) -> (r: BlockSpec)
    ensures
        r == match b {
            Some(s) => s,
            None => BlockSpec::Tag(BlockTag::Latest),
        },
{
    match b {
        Some(s) => s,
        None => BlockSpec::Tag(BlockTag::Latest),
    }
}

impl GetLogsArgs {
    /// Checks the addresses (20 bytes each) and topics (32 bytes each) and
    /// fills in absent block selectors with the latest block.
    pub fn try_into_param(self) -> (r: Result<GetLogsParam, DataFormatError>)
        ensures
            r is Ok <==> all_fixed_hex(self.addresses@, 20) && match self.topics {
                Some(t) => all_fixed_hex(t@, 32),
                None => true,
            },
            r matches Err(DataFormatError::InvalidHex(t)) ==> if !all_fixed_hex(
                self.addresses@,
                20,
            ) {
                exists|i: int| #[trigger]
                    first_not_fixed_hex(self.addresses@, 20, i) && self.addresses@[i] == t
            } else {
                exists|i: int| #[trigger]
                    first_not_fixed_hex(self.topics.unwrap()@, 32, i) && self.topics.unwrap()@[i]
                        == t
            },
            r matches Ok(p) ==> {
                &&& p.from_block == match self.from_block {
                    Some(s) => s,
                    None => BlockSpec::Tag(BlockTag::Latest),
                }
                &&& p.to_block == match self.to_block {
                    Some(s) => s,
                    None => BlockSpec::Tag(BlockTag::Latest),
                }
                &&& p.address@.len() == self.addresses@.len()
                &&& forall|i: int|
                    0 <= i < p.address@.len() ==> (#[trigger] p.address@[i])@ == hex_bytes(
                        self.addresses@[i]@,
                        20,
                    )
                &&& p.topics@.len() == match self.topics {
                    Some(t) => t@.len(),
                    None => 0,
                }
                &&& forall|i: int|
                    0 <= i < p.topics@.len() ==> (#[trigger] p.topics@[i])@ == hex_bytes(
                        self.topics.unwrap()@[i]@,
                        32,
                    )
            },
    {
        let address = match parse_all_fixed_hex(&self.addresses, 20) {
            Ok(a) => a,
            Err(e) => return Err(e),
        };
        let topics = match &self.topics {
            Some(t) => match parse_all_fixed_hex(t, 32) {
                Ok(t) => t,
                Err(e) => return Err(e),
            },
            None => Vec::new(),
        };
        Ok(
            GetLogsParam {
                from_block: default_block(self.from_block),
                to_block: default_block(self.to_block),
                address,
                topics,
            },
        )
    }
}

impl FeeHistoryArgs {
    /// The query's parameters; absent percentiles become an empty list.
    pub fn into_params(self) -> (r: FeeHistoryParams)
        ensures
            r.block_count == self.block_count,
            r.highest_block == self.newest_block,
            r.reward_percentiles@ == match self.reward_percentiles {
                Some(v) => v@,
                None => Seq::<u8>::empty(),
            },
    {
        FeeHistoryParams {
            block_count: self.block_count,
            highest_block: self.newest_block,
            reward_percentiles: match self.reward_percentiles {
                Some(v) => v,
                None => Vec::new(),
            },
        }
    }
}

impl GetTransactionCountArgs {
    /// Checks that the address is the hex of 20 bytes.
    pub fn try_into_params(self) -> (r: Result<GetTransactionCountParams, DataFormatError>)
        ensures
            r is Ok <==> is_fixed_hex(self.address@, 20),
            r matches Ok(p) ==> p.address@ == hex_bytes(self.address@, 20) && p.block
                == self.block,
            r matches Err(DataFormatError::InvalidHex(t)) ==> t == self.address,
    {
        match fixed_hex_or_error(&self.address, 20) {
            Ok(address) => Ok(GetTransactionCountParams { address, block: self.block }),
            Err(e) => Err(e),
        }
    }
}

} // verus!
