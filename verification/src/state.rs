//! Decoding of raw on-ledger account records.
//!
//! A record is a fixed-layout base — a mint or a holder account — optionally
//! followed by padding up to 165 bytes, one account-type byte, and a list of
//! type-length-value extension entries. The decoders here accept exactly the
//! well-formed records: a multisig-sized record, a bad option tag, a bad
//! state byte, a wrong account-type byte, nonzero padding or a truncated
//! entry list are rejected, and a record whose base is valid but marked
//! uninitialized is reported as such.

use vstd::prelude::*;
use crate::address::{Address, opt_view};
use crate::error::TokenError;

verus! {

/// Tag of the transfer-fee configuration extension on a mint.
pub const TRANSFER_FEE_CONFIG_TAG: u16 = 1;

/// Tag of the withheld-fee amount extension on a holder account.
pub const TRANSFER_FEE_AMOUNT_TAG: u16 = 2;

/// The 16-bit value at `i`, least significant byte first.
pub open spec fn le16_at(d: Seq<u8>, i: int) -> u16 {
    (d[i] + 256 * d[i + 1]) as u16
}

/// The 64-bit value at `i`, least significant byte first.
pub open spec fn le64_at(d: Seq<u8>, i: int) -> u64 {
    (d[i] + 256 * d[i + 1] + 65536 * d[i + 2] + 16777216 * d[i + 3] + 4294967296 * d[i + 4]
        + 1099511627776 * d[i + 5] + 281474976710656 * d[i + 6] + 72057594037927936 * d[i
        + 7]) as u64
}

/// An optional 32-byte key at `i`: a four-byte tag then the key.
/// `None` means the tag itself is malformed.
pub open spec fn coption_key_at(d: Seq<u8>, i: int) -> Option<Option<Seq<u8>>> {
    if d[i] == 0 && d[i + 1] == 0 && d[i + 2] == 0 && d[i + 3] == 0 {
        Some(None)
    } else if d[i] == 1 && d[i + 1] == 0 && d[i + 2] == 0 && d[i + 3] == 0 {
        Some(Some(d.subrange(i + 4, i + 36)))
    } else {
        None
    }
}

/// An optional 64-bit value at `i`: a four-byte tag then the value.
pub open spec fn coption_u64_at(d: Seq<u8>, i: int) -> Option<Option<u64>> {
    if d[i] == 0 && d[i + 1] == 0 && d[i + 2] == 0 && d[i + 3] == 0 {
        Some(None)
    } else if d[i] == 1 && d[i + 1] == 0 && d[i + 2] == 0 && d[i + 3] == 0 {
        Some(Some(le64_at(d, i + 4)))
    } else {
        None
    }
}

/// The extension tags of the entry list starting at `i`, in order. The list
/// ends at the end of the record, at a truncated tag, or at a zero tag; an
/// entry whose length field is cut off or overruns the record is malformed.
pub open spec fn tlv_tags(d: Seq<u8>, i: int) -> Result<Seq<u16>, TokenError>
    decreases d.len() - i,
{
    if i + 2 > d.len() {
        Ok(Seq::empty())
    } else {
        let tag = le16_at(d, i);
        if tag == 0 {
            Ok(Seq::empty())
        } else if i + 4 > d.len() {
            Err(TokenError::InvalidAccountData)
        } else {
            let len = le16_at(d, i + 2);
            if i + 4 + len > d.len() {
                Err(TokenError::InvalidAccountData)
            } else {
                match tlv_tags(d, i + 4 + len) {
                    Ok(rest) => Ok(seq![tag] + rest),
                    Err(e) => Err(e),
                }
            }
        }
    }
}

/// Where the value of the first entry with the given tag starts, if any.
pub open spec fn tlv_value_at(d: Seq<u8>, i: int, t: u16) -> Option<int>
    decreases d.len() - i,
{
    if i + 2 > d.len() {
        None
    } else {
        let tag = le16_at(d, i);
        if tag == 0 {
            None
        } else if i + 4 > d.len() {
            None
        } else {
            let len = le16_at(d, i + 2);
            if i + 4 + len > d.len() {
                None
            } else if tag == t {
                Some(i + 4)
            } else {
                tlv_value_at(d, i + 4 + len, t)
            }
        }
    }
}

/// Model of a decoded transfer-fee configuration. The two authorities are
/// stored as plain keys where all zero bytes means absent.
pub ghost struct FeeConfigModel {
    pub config_authority: Seq<u8>,
    pub withdraw_authority: Seq<u8>,
    pub withheld_amount: u64,
    pub older_epoch: u64,
    pub older_maximum_fee: u64,
    pub older_basis_points: u16,
    pub newer_epoch: u64,
    pub newer_maximum_fee: u64,
    pub newer_basis_points: u16,
}

/// Model of a decoded mint record.
pub ghost struct MintModel {
    pub mint_authority: Option<Seq<u8>>,
    pub supply: u64,
    pub decimals: u8,
    pub freeze_authority: Option<Seq<u8>>,
    pub extension_types: Seq<u16>,
    pub transfer_fee: Option<FeeConfigModel>,
}

/// Model of a decoded holder-account record.
pub ghost struct TokenAccountModel {
    pub mint: Seq<u8>,
    pub owner: Seq<u8>,
    pub amount: u64,
    pub delegate: Option<Seq<u8>>,
    pub state: u8,
    pub is_native: Option<u64>,
    pub delegated_amount: u64,
    pub close_authority: Option<Seq<u8>>,
    pub extension_types: Seq<u16>,
    pub withheld_amount: Option<u64>,
}

/// The decoded transfer-fee configuration whose value starts at `s`.
pub open spec fn fee_config_at(d: Seq<u8>, s: int) -> FeeConfigModel {
    FeeConfigModel {
        config_authority: d.subrange(s, s + 32),
        withdraw_authority: d.subrange(s + 32, s + 64),
        withheld_amount: le64_at(d, s + 64),
        older_epoch: le64_at(d, s + 72),
        older_maximum_fee: le64_at(d, s + 80),
        older_basis_points: le16_at(d, s + 88),
        newer_epoch: le64_at(d, s + 90),
        newer_maximum_fee: le64_at(d, s + 98),
        newer_basis_points: le16_at(d, s + 106),
    }
}

/// Whether the bytes strictly between `lo` and `hi` are all zero.
pub open spec fn zero_padding(d: Seq<u8>, lo: int, hi: int) -> bool {
    forall|j: int| lo <= j < hi ==> d[j] == 0
}

/// What a mint record decodes to: the base fields when the record is
/// well-formed and initialized, with its extension tags and — when the
/// transfer-fee configuration entry is present and 108 bytes long — the
/// decoded fee configuration.
pub open spec fn spec_decode_mint(d: Seq<u8>) -> Result<MintModel, TokenError> {
    if d.len() == 355 || d.len() < 82 {
        Err(TokenError::InvalidAccountData)
    } else if coption_key_at(d, 0) is None || coption_key_at(d, 46) is None || d[45] > 1 {
        Err(TokenError::InvalidAccountData)
    } else if d[45] == 0 {
        Err(TokenError::UninitializedAccount)
    } else if d.len() == 82 {
        Ok(
            MintModel {
                mint_authority: coption_key_at(d, 0)->Some_0,
                supply: le64_at(d, 36),
                decimals: d[44],
                freeze_authority: coption_key_at(d, 46)->Some_0,
                extension_types: Seq::empty(),
                transfer_fee: None,
            },
        )
    } else if d.len() < 166 || !zero_padding(d, 82, 165) || d[165] != 1 {
        Err(TokenError::InvalidAccountData)
    } else {
        match tlv_tags(d, 166) {
            Err(e) => Err(e),
            Ok(tags) => {
                let fee = tlv_value_at(d, 166, TRANSFER_FEE_CONFIG_TAG);
                if fee is Some && le16_at(d, fee->Some_0 - 2) != 108 {
                    Err(TokenError::InvalidAccountData)
                } else {
                    Ok(
                        MintModel {
                            mint_authority: coption_key_at(d, 0)->Some_0,
                            supply: le64_at(d, 36),
                            decimals: d[44],
                            freeze_authority: coption_key_at(d, 46)->Some_0,
                            extension_types: tags,
                            transfer_fee: match fee {
                                Some(s) => Some(fee_config_at(d, s)),
                                None => None,
                            },
                        },
                    )
                }
            },
        }
    }
}

/// What a holder-account record decodes to.
pub open spec fn spec_decode_account(d: Seq<u8>) -> Result<TokenAccountModel, TokenError> {
    if d.len() == 355 || d.len() < 165 {
        Err(TokenError::InvalidAccountData)
    } else if coption_key_at(d, 72) is None || d[108] > 2 || coption_u64_at(d, 109) is None
        || coption_key_at(d, 129) is None {
        Err(TokenError::InvalidAccountData)
    } else if d[108] == 0 {
        Err(TokenError::UninitializedAccount)
    } else if d.len() == 165 {
        Ok(spec_account_base(d, Seq::empty(), None))
    } else if d[165] != 2 {
        Err(TokenError::InvalidAccountData)
    } else {
        match tlv_tags(d, 166) {
            Err(e) => Err(e),
            Ok(tags) => {
                let amt = tlv_value_at(d, 166, TRANSFER_FEE_AMOUNT_TAG);
                if amt is Some && le16_at(d, amt->Some_0 - 2) != 8 {
                    Err(TokenError::InvalidAccountData)
                } else {
                    Ok(
                        spec_account_base(
                            d,
                            tags,
                            match amt {
                                Some(s) => Some(le64_at(d, s)),
                                None => None,
                            },
                        ),
                    )
                }
            },
        }
    }
}

/// The base fields of a holder-account record.
pub open spec fn spec_account_base(
    d: Seq<u8>,
    tags: Seq<u16>,
    withheld: Option<u64>,
) -> TokenAccountModel {
    TokenAccountModel {
        mint: d.subrange(0, 32),
        owner: d.subrange(32, 64),
        amount: le64_at(d, 64),
        delegate: coption_key_at(d, 72)->Some_0,
        state: d[108],
        is_native: coption_u64_at(d, 109)->Some_0,
        delegated_amount: le64_at(d, 121),
        close_authority: coption_key_at(d, 129)->Some_0,
        extension_types: tags,
        withheld_amount: withheld,
    }
}

/// A decoded transfer-fee configuration.
#[derive(Clone, Copy, Debug)]
pub struct TransferFeeConfigInfo {
    pub config_authority: Address,
    pub withdraw_authority: Address,
    pub withheld_amount: u64,
    pub older_epoch: u64,
    pub older_maximum_fee: u64,
    pub older_basis_points: u16,
    pub newer_epoch: u64,
    pub newer_maximum_fee: u64,
    pub newer_basis_points: u16,
}

impl View for TransferFeeConfigInfo {
    type V = FeeConfigModel;

    open spec fn view(&self) -> FeeConfigModel {
        FeeConfigModel {
            config_authority: self.config_authority@,
            withdraw_authority: self.withdraw_authority@,
            withheld_amount: self.withheld_amount,
            older_epoch: self.older_epoch,
            older_maximum_fee: self.older_maximum_fee,
            older_basis_points: self.older_basis_points,
            newer_epoch: self.newer_epoch,
            newer_maximum_fee: self.newer_maximum_fee,
            newer_basis_points: self.newer_basis_points,
        }
    }
}

/// A decoded mint record.
#[derive(Clone, Debug)]
pub struct MintInfo {
    pub mint_authority: Option<Address>,
    pub supply: u64,
    pub decimals: u8,
    pub freeze_authority: Option<Address>,
    pub extension_types: Vec<u16>,
    pub transfer_fee: Option<TransferFeeConfigInfo>,
}

impl View for MintInfo {
    type V = MintModel;

    open spec fn view(&self) -> MintModel {
        MintModel {
            mint_authority: opt_view(self.mint_authority),
            supply: self.supply,
            decimals: self.decimals,
            freeze_authority: opt_view(self.freeze_authority),
            extension_types: self.extension_types@,
            transfer_fee: match self.transfer_fee {
                Some(f) => Some(f@),
                None => None,
            },
        }
    }
}

/// A decoded holder-account record.
#[derive(Clone, Debug)]
pub struct TokenAccountInfo {
    pub mint: Address,
    pub owner: Address,
    pub amount: u64,
    pub delegate: Option<Address>,
    pub state: u8,
    pub is_native: Option<u64>,
    pub delegated_amount: u64,
    pub close_authority: Option<Address>,
    pub extension_types: Vec<u16>,
    pub withheld_amount: Option<u64>,
}

impl View for TokenAccountInfo {
    type V = TokenAccountModel;

    open spec fn view(&self) -> TokenAccountModel {
        TokenAccountModel {
            mint: self.mint@,
            owner: self.owner@,
            amount: self.amount,
            delegate: opt_view(self.delegate),
            state: self.state,
            is_native: match self.is_native {
                Some(v) => Some(v),
                None => None,
            },
            delegated_amount: self.delegated_amount,
            close_authority: opt_view(self.close_authority),
            extension_types: self.extension_types@,
            withheld_amount: match self.withheld_amount {
                Some(v) => Some(v),
                None => None,
            },
        }
    }
}

fn read_u16_le(data: &Vec<u8>, at: usize) -> (r: u16)
    requires
        at + 2 <= data@.len(),
    ensures
        r == le16_at(data@, at as int),
{
    let _len = data.len();
    data[at] as u16 + 256 * (data[at + 1] as u16)
}

fn read_u64_le(data: &Vec<u8>, at: usize) -> (r: u64)
    requires
        at + 8 <= data@.len(),
    ensures
        r == le64_at(data@, at as int),
{
    let _len = data.len();
    data[at] as u64 + 256 * (data[at + 1] as u64) + 65536 * (data[at + 2] as u64) + 16777216 * (
    data[at + 3] as u64) + 4294967296 * (data[at + 4] as u64) + 1099511627776 * (data[at
        + 5] as u64) + 281474976710656 * (data[at + 6] as u64) + 72057594037927936 * (data[at
        + 7] as u64)
}

fn read_address(data: &Vec<u8>, at: usize) -> (r: Address)
    requires
        at + 32 <= data@.len(),
    ensures
        r@ == data@.subrange(at as int, at as int + 32),
{
    let _len = data.len();
    let mut bytes: [u8; 32] = [0; 32];
    let mut j: usize = 0;
    while j < 32
        invariant
            at + 32 <= data@.len() <= usize::MAX,
            j <= 32,
            forall|k: int| 0 <= k < j ==> bytes@[k] == data@[at + k],
        decreases 32 - j,
    {
        bytes[j] = data[at + j];
        j += 1;
    }
    let r = Address { bytes };
    proof {
        assert(r@ =~= data@.subrange(at as int, at as int + 32));
    }
    r
}

fn read_coption_key(data: &Vec<u8>, at: usize) -> (r: Result<Option<Address>, TokenError>)
    requires
        at + 36 <= data@.len(),
    ensures
        match r {
            Ok(o) => coption_key_at(data@, at as int) == Some(opt_view(o)),
            Err(e) => e == TokenError::InvalidAccountData && coption_key_at(
                data@,
                at as int,
            ) is None,
        },
{
    let _len = data.len();
    if data[at + 1] != 0 || data[at + 2] != 0 || data[at + 3] != 0 {
        return Err(TokenError::InvalidAccountData);
    }
    if data[at] == 0 {
        Ok(None)
    } else if data[at] == 1 {
        Ok(Some(read_address(data, at + 4)))
    } else {
        Err(TokenError::InvalidAccountData)
    }
}

fn read_coption_u64(data: &Vec<u8>, at: usize) -> (r: Result<Option<u64>, TokenError>)
    requires
        at + 12 <= data@.len(),
    ensures
        match r {
            Ok(o) => coption_u64_at(data@, at as int) == Some(
                match o {
                    Some(v) => Some(v),
                    None => None,
                },
            ),
            Err(e) => e == TokenError::InvalidAccountData && coption_u64_at(
                data@,
                at as int,
            ) is None,
        },
{
    let _len = data.len();
    if data[at + 1] != 0 || data[at + 2] != 0 || data[at + 3] != 0 {
        return Err(TokenError::InvalidAccountData);
    }
    if data[at] == 0 {
        Ok(None)
    } else if data[at] == 1 {
        Ok(Some(read_u64_le(data, at + 4)))
    } else {
        Err(TokenError::InvalidAccountData)
    }
}

/// The extension tags from byte 166 on, with the value offsets of the first
/// entries carrying the two tags the inspection commands report.
fn walk_extensions(data: &Vec<u8>) -> (r: Result<
    (Vec<u16>, Option<(usize, usize)>, Option<(usize, usize)>),
    TokenError,
>)
    requires
        166 <= data@.len(),
    ensures
        match r {
            Ok((tags, fee, amt)) => tlv_tags(data@, 166) == Ok::<Seq<u16>, TokenError>(tags@)
                && (match fee {
                Some((o, l)) => tlv_value_at(data@, 166, TRANSFER_FEE_CONFIG_TAG) == Some(o as int)
                    && le16_at(data@, o as int - 2) == l && o + l <= data@.len() && o >= 166,
                None => tlv_value_at(data@, 166, TRANSFER_FEE_CONFIG_TAG) is None,
            }) && (match amt {
                Some((o, l)) => tlv_value_at(data@, 166, TRANSFER_FEE_AMOUNT_TAG) == Some(o as int)
                    && le16_at(data@, o as int - 2) == l && o + l <= data@.len() && o >= 166,
                None => tlv_value_at(data@, 166, TRANSFER_FEE_AMOUNT_TAG) is None,
            }),
            Err(e) => tlv_tags(data@, 166) == Err::<Seq<u16>, TokenError>(e),
        },
{
    let ghost d = data@;
    let mut tags: Vec<u16> = Vec::new();
    let mut fee: Option<(usize, usize)> = None;
    let mut amt: Option<(usize, usize)> = None;
    let mut i: usize = 166;
    loop
        invariant
            166 <= i <= d.len(),
            d == data@,
            tlv_tags(d, 166) == (match tlv_tags(d, i as int) {
                Ok(rest) => Ok::<Seq<u16>, TokenError>(tags@ + rest),
                Err(e) => Err::<Seq<u16>, TokenError>(e),
            }),
            (match fee {
                Some((o, l)) => tlv_value_at(d, 166, TRANSFER_FEE_CONFIG_TAG) == Some(o as int)
                    && le16_at(d, o as int - 2) == l && o + l <= d.len() && o >= 166,
                None => tlv_value_at(d, 166, TRANSFER_FEE_CONFIG_TAG) == tlv_value_at(
                    d,
                    i as int,
                    TRANSFER_FEE_CONFIG_TAG,
                ),
            }),
            (match amt {
                Some((o, l)) => tlv_value_at(d, 166, TRANSFER_FEE_AMOUNT_TAG) == Some(o as int)
                    && le16_at(d, o as int - 2) == l && o + l <= d.len() && o >= 166,
                None => tlv_value_at(d, 166, TRANSFER_FEE_AMOUNT_TAG) == tlv_value_at(
                    d,
                    i as int,
                    TRANSFER_FEE_AMOUNT_TAG,
                ),
            }),
        decreases d.len() - i,
    {
        if data.len() - i < 2 {
            proof {
                assert(tlv_tags(d, i as int) == Ok::<Seq<u16>, TokenError>(Seq::empty()));
                assert(tags@ + Seq::<u16>::empty() =~= tags@);
            }
            return Ok((tags, fee, amt));
        }
        let tag = read_u16_le(data, i);
        if tag == 0 {
            proof {
                assert(tlv_tags(d, i as int) == Ok::<Seq<u16>, TokenError>(Seq::empty()));
                assert(tags@ + Seq::<u16>::empty() =~= tags@);
            }
            return Ok((tags, fee, amt));
        }
        if data.len() - i < 4 {
            return Err(TokenError::InvalidAccountData);
        }
        let len = read_u16_le(data, i + 2) as usize;
        if len > data.len() - (i + 4) {
            return Err(TokenError::InvalidAccountData);
        }
        let ghost prev = tags@;
        let ghost old_i = i as int;
        tags.push(tag);
        if tag == TRANSFER_FEE_CONFIG_TAG && fee.is_none() {
            fee = Some((i + 4, len));
        }
        if tag == TRANSFER_FEE_AMOUNT_TAG && amt.is_none() {
            amt = Some((i + 4, len));
        }
        i = i + 4 + len;
        proof {
            assert(tags@ == prev + seq![tag]);
            if tlv_tags(d, i as int) is Ok {
                let rest = tlv_tags(d, i as int)->Ok_0;
                assert(tlv_tags(d, old_i) == Ok::<Seq<u16>, TokenError>(seq![tag] + rest));
                assert(prev + (seq![tag] + rest) =~= tags@ + rest);
            }
        }
    }
}

/// Decodes a mint record: its authorities, supply and precision, the
/// extension tags present, and the transfer-fee configuration when that
/// extension is present.
#[verifier::loop_isolation(false)]
pub fn decode_mint(data: &Vec<u8>) -> (r: Result<MintInfo, TokenError>)
    ensures
        match r {
            Ok(m) => spec_decode_mint(data@) == Ok::<MintModel, TokenError>(m@),
            Err(e) => spec_decode_mint(data@) == Err::<MintModel, TokenError>(e),
        },
{
    if data.len() == 355 || data.len() < 82 {
        return Err(TokenError::InvalidAccountData);
    }
    let mint_authority = match read_coption_key(data, 0) {
        Ok(o) => o,
        Err(e) => {
            return Err(e);
        },
    };
    let freeze_authority = match read_coption_key(data, 46) {
        Ok(o) => o,
        Err(e) => {
            return Err(e);
        },
    };
    if data[45] > 1 {
        return Err(TokenError::InvalidAccountData);
    }
    if data[45] == 0 {
        return Err(TokenError::UninitializedAccount);
    }
    let supply = read_u64_le(data, 36);
    let decimals = data[44];
    if data.len() == 82 {
        return Ok(
            MintInfo {
                mint_authority,
                supply,
                decimals,
                freeze_authority,
                extension_types: Vec::new(),
                transfer_fee: None,
            },
        );
    }
    if data.len() < 166 {
        return Err(TokenError::InvalidAccountData);
    }
    let mut j: usize = 82;
    while j < 165
        invariant
            82 <= j <= 165,
            166 <= data@.len(),
            forall|k: int| 82 <= k < j ==> data@[k] == 0,
        decreases 165 - j,
    {
        if data[j] != 0 {
            proof {
                assert(!zero_padding(data@, 82, 165)) by {
                    assert(data@[j as int] != 0);
                }
            }
            return Err(TokenError::InvalidAccountData);
        }
        j += 1;
    }
    if data[165] != 1 {
        return Err(TokenError::InvalidAccountData);
    }
    let (extension_types, fee, _) = match walk_extensions(data) {
        Ok(t) => t,
        Err(e) => {
            return Err(e);
        },
    };
    let transfer_fee = match fee {
        None => None,
        Some((off, len)) => {
            if len != 108 {
                return Err(TokenError::InvalidAccountData);
            }
            Some(
                TransferFeeConfigInfo {
                    config_authority: read_address(data, off),
                    withdraw_authority: read_address(data, off + 32),
                    withheld_amount: read_u64_le(data, off + 64),
                    older_epoch: read_u64_le(data, off + 72),
                    older_maximum_fee: read_u64_le(data, off + 80),
                    older_basis_points: read_u16_le(data, off + 88),
                    newer_epoch: read_u64_le(data, off + 90),
                    newer_maximum_fee: read_u64_le(data, off + 98),
                    newer_basis_points: read_u16_le(data, off + 106),
                },
            )
        },
    };
    Ok(
        MintInfo {
            mint_authority,
            supply,
            decimals,
            freeze_authority,
            extension_types,
            transfer_fee,
        },
    )
}

/// Decodes a holder-account record: its base fields, the extension tags
/// present, and the withheld fee amount exactly when that extension is
/// present.
#[verifier::loop_isolation(false)]
pub fn decode_account(data: &Vec<u8>) -> (r: Result<TokenAccountInfo, TokenError>)
    ensures
        match r {
            Ok(a) => spec_decode_account(data@) == Ok::<TokenAccountModel, TokenError>(a@),
            Err(e) => spec_decode_account(data@) == Err::<TokenAccountModel, TokenError>(e),
        },
{
    if data.len() == 355 || data.len() < 165 {
        return Err(TokenError::InvalidAccountData);
    }
    let delegate = match read_coption_key(data, 72) {
        Ok(o) => o,
        Err(e) => {
            return Err(e);
        },
    };
    if data[108] > 2 {
        return Err(TokenError::InvalidAccountData);
    }
    let is_native = match read_coption_u64(data, 109) {
        Ok(o) => o,
        Err(e) => {
            return Err(e);
        },
    };
    let close_authority = match read_coption_key(data, 129) {
        Ok(o) => o,
        Err(e) => {
            return Err(e);
        },
    };
    if data[108] == 0 {
        return Err(TokenError::UninitializedAccount);
    }
    let mint = read_address(data, 0);
    let owner = read_address(data, 32);
    let amount = read_u64_le(data, 64);
    let state = data[108];
    let delegated_amount = read_u64_le(data, 121);
    if data.len() == 165 {
        return Ok(
            TokenAccountInfo {
                mint,
                owner,
                amount,
                delegate,
                state,
                is_native,
                delegated_amount,
                close_authority,
                extension_types: Vec::new(),
                withheld_amount: None,
            },
        );
    }
    if data[165] != 2 {
        return Err(TokenError::InvalidAccountData);
    }
    let (extension_types, _, amt) = match walk_extensions(data) {
        Ok(t) => t,
        Err(e) => {
            return Err(e);
        },
    };
    let withheld_amount = match amt {
        None => None,
        Some((off, len)) => {
            if len != 8 {
                return Err(TokenError::InvalidAccountData);
            }
            Some(read_u64_le(data, off))
        },
    };
    Ok(
        TokenAccountInfo {
            mint,
            owner,
            amount,
            delegate,
            state,
            is_native,
            delegated_amount,
            close_authority,
            extension_types,
            withheld_amount,
        },
    )
}

} // verus!
