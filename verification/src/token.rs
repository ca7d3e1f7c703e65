//! The token program: a Mint record that tracks total supply, and
//! TokenAccount records that hold balances of one mint. Every record begins
//! with a tag byte so records of the same length cannot be confused across
//! kinds. Mint raises supply and a target balance together; Burn and
//! Transfer need the owner's signature and a sufficient balance, and every
//! amount moves under checked arithmetic.

use vstd::prelude::*;
use vstd::bytes::*;
use crate::account::{views, all_wf, clone_accounts, set_data, Account, AccountV};
use crate::codec::{push_bytes, push_u64_le, read_bytes, read_u64_le};
use crate::errors::ProgError;
use crate::identity::Identity;

verus! {

/// The tag that opens every record of this program and names its kind.
#[derive(Clone, Copy, Debug, PartialEq, Eq, Structural)]
pub enum AccountTag {
    Uninitialized,
    Mint,
    TokenAccount,
}

/// The byte a tag is stored as.
pub open spec fn tag_byte(t: AccountTag) -> u8 {
    match t {
        AccountTag::Uninitialized => 0u8,
        AccountTag::Mint => 1u8,
        AccountTag::TokenAccount => 2u8,
    }
}

/// The tag a stored byte denotes, if any.
pub open spec fn parse_tag(b: u8) -> Option<AccountTag> {
    if b == 0u8 {
        Some(AccountTag::Uninitialized)
    } else if b == 1u8 {
        Some(AccountTag::Mint)
    } else if b == 2u8 {
        Some(AccountTag::TokenAccount)
    } else {
        None
    }
}

/// Writes a tag as its byte.
pub fn encode_tag(t: &AccountTag) -> (r: u8)
    ensures
        r == tag_byte(*t),
{
    match t {
        AccountTag::Uninitialized => 0u8,
        AccountTag::Mint => 1u8,
        AccountTag::TokenAccount => 2u8,
    }
}

/// Reads a tag byte.
pub fn decode_tag(b: u8) -> (r: Option<AccountTag>)
    ensures
        r == parse_tag(b),
{
    if b == 0u8 {
        Some(AccountTag::Uninitialized)
    } else if b == 1u8 {
        Some(AccountTag::Mint)
    } else if b == 2u8 {
        Some(AccountTag::TokenAccount)
    } else {
        None
    }
}

/// The mathematical value of a mint record.
pub ghost struct MintV {
    pub tag: AccountTag,
    pub authority: Seq<u8>,
    pub supply: u64,
}

/// A mint record: its tag, the identity allowed to mint, and total supply.
#[derive(Debug)]
pub struct Mint {
    pub tag: AccountTag,
    pub authority: Identity,
    pub supply: u64,
}

impl View for Mint {
    type V = MintV;

    open spec fn view(&self) -> MintV {
        MintV { tag: self.tag, authority: self.authority@, supply: self.supply }
    }
}

/// The fixed 41-byte layout: tag byte, authority, supply in little-endian.
pub open spec fn mint_bytes(m: MintV) -> Seq<u8>
    recommends
        m.authority.len() == 32,
{
    seq![tag_byte(m.tag)] + m.authority + spec_u64_to_le_bytes(m.supply)
}

/// Parses a mint record: exactly 41 bytes opening with a known tag byte.
pub open spec fn parse_mint(data: Seq<u8>) -> Option<MintV> {
    if data.len() == 41 {
        match parse_tag(data[0]) {
            Some(t) => Some(
                MintV {
                    tag: t,
                    authority: data.subrange(1, 33),
                    supply: spec_u64_from_le_bytes(data.subrange(33, 41)),
                },
            ),
            None => None,
        }
    } else {
        None
    }
}

/// Saving a parsed mint record reproduces the buffer bit for bit.
pub proof fn lemma_mint_round_trip(data: Seq<u8>)
    ensures
        (match parse_mint(data) {
            Some(m) => mint_bytes(m) == data,
            None => true,
        }),
{
    lemma_auto_spec_u64_to_from_le_bytes();
    if parse_mint(data) is Some {
        let m = parse_mint(data).unwrap();
        assert(mint_bytes(m) =~= data);
    }
}

/// Parsing a saved mint record yields the record back.
pub proof fn lemma_mint_parse_saved(m: MintV)
    requires
        m.authority.len() == 32,
    ensures
        parse_mint(mint_bytes(m)) == Some(m),
{
    lemma_auto_spec_u64_to_from_le_bytes();
    let data = mint_bytes(m);
    assert(data[0] == tag_byte(m.tag));
    assert(data.subrange(1, 33) =~= m.authority);
    assert(data.subrange(33, 41) =~= spec_u64_to_le_bytes(m.supply));
}

impl Mint {
    /// Parses a record buffer without enforcing its tag. This exists only for
    /// the instant between allocation and the first tag assignment.
    pub fn load_unchecked(data: &Vec<u8>) -> (r: Result<Mint, ProgError>)
        ensures
            (match r {
                Ok(m) => parse_mint(data@) == Some(m@) && m.authority.wf(),
                Err(e) => parse_mint(data@) is None && e == ProgError::InvalidAccountData,
            }),
    {
        if data.len() != 41 {
            return Err(ProgError::InvalidAccountData);
        }
        let tag = match decode_tag(data[0]) {
            Some(t) => t,
            None => {
                return Err(ProgError::InvalidAccountData);
            },
        };
        let authority = Identity::from_bytes(read_bytes(data, 1, 33));
        let supply = read_u64_le(data, 33);
        Ok(Mint { tag, authority, supply })
    }

    /// Whether the record carries the mint tag.
    fn validate(&self) -> (r: Result<(), ProgError>)
        ensures
            (match r {
                Ok(()) => self.tag == AccountTag::Mint,
                Err(e) => self.tag != AccountTag::Mint && e == ProgError::InvalidAccountData,
            }),
    {
        if !matches!(self.tag, AccountTag::Mint) {
            return Err(ProgError::InvalidAccountData);
        }
        Ok(())
    }

    /// Parses a record buffer and fails unless its tag names a mint: the sole
    /// defense against records of another kind with the same length.
    pub fn load(data: &Vec<u8>) -> (r: Result<Mint, ProgError>)
        ensures
            (match r {
                Ok(m) => loaded_mint(data@) == Some(m@) && m.authority.wf(),
                Err(e) => loaded_mint(data@) is None && e == ProgError::InvalidAccountData,
            }),
    {
        let m = match Self::load_unchecked(data) {
            Ok(m) => m,
            Err(e) => {
                return Err(e);
            },
        };
        match m.validate() {
            Ok(()) => Ok(m),
            Err(e) => Err(e),
        }
    }

    /// Serializes the record into its exact 41-byte layout.
    pub fn save(&self) -> (r: Vec<u8>)
        requires
            self.authority.wf(),
        ensures
            r@ == mint_bytes(self@),
    {
        let mut out: Vec<u8> = Vec::new();
        out.push(encode_tag(&self.tag));
        push_bytes(&mut out, &self.authority.bytes);
        push_u64_le(&mut out, self.supply);
        proof {
            assert(out@ =~= mint_bytes(self@));
        }
        out
    }
}

/// A mint record parsed and tag-checked in one step.
pub open spec fn loaded_mint(data: Seq<u8>) -> Option<MintV> {
    match parse_mint(data) {
        Some(m) => if m.tag == AccountTag::Mint {
            Some(m)
        } else {
            None
        },
        None => None,
    }
}

/// The mathematical value of a token-account record.
pub ghost struct TokenAccountV {
    pub tag: AccountTag,
    pub owner: Seq<u8>,
    pub mint: Seq<u8>,
    pub amount: u64,
}

/// A token-account record: its tag, the owning identity, the mint whose
/// units it holds, and the balance.
#[derive(Debug)]
pub struct TokenAccount {
    pub tag: AccountTag,
    pub owner: Identity,
    pub mint: Identity,
    pub amount: u64,
}

impl View for TokenAccount {
    type V = TokenAccountV;

    open spec fn view(&self) -> TokenAccountV {
        TokenAccountV { tag: self.tag, owner: self.owner@, mint: self.mint@, amount: self.amount }
    }
}

/// The fixed 73-byte layout: tag byte, owner, mint, amount in little-endian.
pub open spec fn token_account_bytes(a: TokenAccountV) -> Seq<u8>
    recommends
        a.owner.len() == 32,
        a.mint.len() == 32,
{
    seq![tag_byte(a.tag)] + a.owner + a.mint + spec_u64_to_le_bytes(a.amount)
}

/// Parses a token-account record: exactly 73 bytes opening with a known tag
/// byte.
pub open spec fn parse_token_account(data: Seq<u8>) -> Option<TokenAccountV> {
    if data.len() == 73 {
        match parse_tag(data[0]) {
            Some(t) => Some(
                TokenAccountV {
                    tag: t,
                    owner: data.subrange(1, 33),
                    mint: data.subrange(33, 65),
                    amount: spec_u64_from_le_bytes(data.subrange(65, 73)),
                },
            ),
            None => None,
        }
    } else {
        None
    }
}

/// Saving a parsed token-account record reproduces the buffer bit for bit.
pub proof fn lemma_token_account_round_trip(data: Seq<u8>)
    ensures
        (match parse_token_account(data) {
            Some(a) => token_account_bytes(a) == data,
            None => true,
        }),
{
    lemma_auto_spec_u64_to_from_le_bytes();
    if parse_token_account(data) is Some {
        let a = parse_token_account(data).unwrap();
        assert(token_account_bytes(a) =~= data);
    }
}

/// Parsing a saved token-account record yields the record back.
pub proof fn lemma_token_account_parse_saved(a: TokenAccountV)
    requires
        a.owner.len() == 32,
        a.mint.len() == 32,
    ensures
        parse_token_account(token_account_bytes(a)) == Some(a),
{
    lemma_auto_spec_u64_to_from_le_bytes();
    let data = token_account_bytes(a);
    assert(data[0] == tag_byte(a.tag));
    assert(data.subrange(1, 33) =~= a.owner);
    assert(data.subrange(33, 65) =~= a.mint);
    assert(data.subrange(65, 73) =~= spec_u64_to_le_bytes(a.amount));
}

/// A token-account record parsed and tag-checked in one step.
pub open spec fn loaded_token_account(data: Seq<u8>) -> Option<TokenAccountV> {
    match parse_token_account(data) {
        Some(a) => if a.tag == AccountTag::TokenAccount {
            Some(a)
        } else {
            None
        },
        None => None,
    }
}

impl TokenAccount {
    /// Parses a record buffer without enforcing its tag. This exists only for
    /// the instant between allocation and the first tag assignment.
    pub fn load_unchecked(data: &Vec<u8>) -> (r: Result<TokenAccount, ProgError>)
        ensures
            (match r {
                Ok(a) => parse_token_account(data@) == Some(a@) && a.owner.wf() && a.mint.wf(),
                Err(e) => parse_token_account(data@) is None && e == ProgError::InvalidAccountData,
            }),
    {
        if data.len() != 73 {
            return Err(ProgError::InvalidAccountData);
        }
        let tag = match decode_tag(data[0]) {
            Some(t) => t,
            None => {
                return Err(ProgError::InvalidAccountData);
            },
        };
        let owner = Identity::from_bytes(read_bytes(data, 1, 33));
        let mint = Identity::from_bytes(read_bytes(data, 33, 65));
        let amount = read_u64_le(data, 65);
        Ok(TokenAccount { tag, owner, mint, amount })
    }

    /// Whether the record carries the token-account tag.
    fn validate(&self) -> (r: Result<(), ProgError>)
        ensures
            (match r {
                Ok(()) => self.tag == AccountTag::TokenAccount,
                Err(e) => self.tag != AccountTag::TokenAccount && e
                    == ProgError::InvalidAccountData,
            }),
    {
        if !matches!(self.tag, AccountTag::TokenAccount) {
            return Err(ProgError::InvalidAccountData);
        }
        Ok(())
    }

    /// Parses a record buffer and fails unless its tag names a token account.
    pub fn load(data: &Vec<u8>) -> (r: Result<TokenAccount, ProgError>)
        ensures
            (match r {
                Ok(a) => loaded_token_account(data@) == Some(a@) && a.owner.wf() && a.mint.wf(),
                Err(e) => loaded_token_account(data@) is None && e == ProgError::InvalidAccountData,
            }),
    {
        let a = match Self::load_unchecked(data) {
            Ok(a) => a,
            Err(e) => {
                return Err(e);
            },
        };
        match a.validate() {
            Ok(()) => Ok(a),
            Err(e) => Err(e),
        }
    }

    /// Serializes the record into its exact 73-byte layout.
    pub fn save(&self) -> (r: Vec<u8>)
        requires
            self.owner.wf(),
            self.mint.wf(),
        ensures
            r@ == token_account_bytes(self@),
    {
        let mut out: Vec<u8> = Vec::new();
        out.push(encode_tag(&self.tag));
        push_bytes(&mut out, &self.owner.bytes);
        push_bytes(&mut out, &self.mint.bytes);
        push_u64_le(&mut out, self.amount);
        proof {
            assert(out@ =~= token_account_bytes(self@));
        }
        out
    }
}

/// The instruction set of the token program. Amounts travel as 8 little-endian
/// bytes after the tag byte.
#[derive(Clone, Copy, Debug, PartialEq, Eq, Structural)]
pub enum TokenInstruction {
    InitializeMint,
    InitializeTokenAccount,
    Mint { amount: u64 },
    Burn { amount: u64 },
    Transfer { amount: u64 },
}

/// Instruction bytes: a tag byte, then the amount for the instructions that
/// carry one, nothing after.
pub open spec fn parse_token_instruction(data: Seq<u8>) -> Option<TokenInstruction> {
    if data.len() == 1 && data[0] == 0u8 {
        Some(TokenInstruction::InitializeMint)
    } else if data.len() == 1 && data[0] == 1u8 {
        Some(TokenInstruction::InitializeTokenAccount)
    } else if data.len() == 9 && data[0] == 2u8 {
        Some(TokenInstruction::Mint { amount: spec_u64_from_le_bytes(data.subrange(1, 9)) })
    } else if data.len() == 9 && data[0] == 3u8 {
        Some(TokenInstruction::Burn { amount: spec_u64_from_le_bytes(data.subrange(1, 9)) })
    } else if data.len() == 9 && data[0] == 4u8 {
        Some(TokenInstruction::Transfer { amount: spec_u64_from_le_bytes(data.subrange(1, 9)) })
    } else {
        None
    }
}

/// Decodes instruction bytes for the token program.
pub fn decode_instruction(data: &Vec<u8>) -> (r: Result<TokenInstruction, ProgError>)
    ensures
        (match r {
            Ok(i) => parse_token_instruction(data@) == Some(i),
            Err(e) => parse_token_instruction(data@) is None && e
                == ProgError::InvalidInstructionData,
        }),
{
    if data.len() == 1 && data[0] == 0u8 {
        Ok(TokenInstruction::InitializeMint)
    } else if data.len() == 1 && data[0] == 1u8 {
        Ok(TokenInstruction::InitializeTokenAccount)
    } else if data.len() == 9 && data[0] == 2u8 {
        Ok(TokenInstruction::Mint { amount: read_u64_le(data, 1) })
    } else if data.len() == 9 && data[0] == 3u8 {
        Ok(TokenInstruction::Burn { amount: read_u64_le(data, 1) })
    } else if data.len() == 9 && data[0] == 4u8 {
        Ok(TokenInstruction::Transfer { amount: read_u64_le(data, 1) })
    } else {
        Err(ProgError::InvalidInstructionData)
    }
}

/// Encodes an instruction into the bytes `decode_instruction` accepts.
pub fn encode_instruction(i: &TokenInstruction) -> (r: Vec<u8>)
    ensures
        parse_token_instruction(r@) == Some(*i),
{
    let mut out: Vec<u8> = Vec::new();
    match i {
        TokenInstruction::InitializeMint => {
            out.push(0u8);
        },
        TokenInstruction::InitializeTokenAccount => {
            out.push(1u8);
        },
        TokenInstruction::Mint { amount } => {
            out.push(2u8);
            push_u64_le(&mut out, *amount);
            proof {
                lemma_auto_spec_u64_to_from_le_bytes();
                assert(out@.subrange(1, 9) =~= spec_u64_to_le_bytes(*amount));
            }
        },
        TokenInstruction::Burn { amount } => {
            out.push(3u8);
            push_u64_le(&mut out, *amount);
            proof {
                lemma_auto_spec_u64_to_from_le_bytes();
                assert(out@.subrange(1, 9) =~= spec_u64_to_le_bytes(*amount));
            }
        },
        TokenInstruction::Transfer { amount } => {
            out.push(4u8);
            push_u64_le(&mut out, *amount);
            proof {
                lemma_auto_spec_u64_to_from_le_bytes();
                assert(out@.subrange(1, 9) =~= spec_u64_to_le_bytes(*amount));
            }
        },
    }
    out
}

/// Initializing a mint: the record must parse, the would-be authority must
/// have signed; the record is then stamped with the mint tag, the authority
/// is captured, and supply starts at zero. Any prior content is overwritten.
pub open spec fn initialize_mint_outcome(
    mint_data: Seq<u8>,
    authority: Seq<u8>,
    signed: bool,
) -> Result<Seq<u8>, ProgError> {
    match parse_mint(mint_data) {
        None => Err(ProgError::InvalidAccountData),
        Some(_) => if !signed {
            Err(ProgError::MissingRequiredSignature)
        } else {
            Ok(mint_bytes(MintV { tag: AccountTag::Mint, authority, supply: 0u64 }))
        },
    }
}

/// Initializing a token account: the record must parse; it is then stamped
/// with the token-account tag, bound to the given owner and mint, and its
/// balance starts at zero.
pub open spec fn initialize_token_account_outcome(
    ta_data: Seq<u8>,
    mint_key: Seq<u8>,
    owner_key: Seq<u8>,
) -> Result<Seq<u8>, ProgError> {
    match parse_token_account(ta_data) {
        None => Err(ProgError::InvalidAccountData),
        Some(_) => Ok(
            token_account_bytes(
                TokenAccountV {
                    tag: AccountTag::TokenAccount,
                    owner: owner_key,
                    mint: mint_key,
                    amount: 0u64,
                },
            ),
        ),
    }
}

/// Minting: both records must load under their tags, the mint's authority
/// must have signed and match, the target account must belong to this mint,
/// and supply and balance rise together by the amount, overflow checked.
/// The result pairs the new token-account bytes with the new mint bytes.
pub open spec fn mint_to_outcome(
    ta_data: Seq<u8>,
    mint_data: Seq<u8>,
    mint_key: Seq<u8>,
    authority_key: Seq<u8>,
    signed: bool,
    amount: u64,
) -> Result<(Seq<u8>, Seq<u8>), ProgError> {
    match (loaded_token_account(ta_data), loaded_mint(mint_data)) {
        (Some(ta), Some(m)) => if !signed {
            Err(ProgError::MissingRequiredSignature)
        } else if m.authority != authority_key {
            Err(ProgError::MissingRequiredSignature)
        } else if ta.mint != mint_key {
            Err(ProgError::InvalidAccountData)
        } else if m.supply + amount > u64::MAX || ta.amount + amount > u64::MAX {
            Err(ProgError::Overflow)
        } else {
            Ok(
                (
                    token_account_bytes(
                        TokenAccountV { amount: (ta.amount + amount) as u64, ..ta },
                    ),
                    mint_bytes(MintV { supply: (m.supply + amount) as u64, ..m }),
                ),
            )
        },
        _ => Err(ProgError::InvalidAccountData),
    }
}

/// Burning: both records must load under their tags, the account's owner must
/// have signed and match, the account must belong to this mint, and the
/// balance must cover the amount; supply and balance then fall together.
pub open spec fn burn_outcome(
    ta_data: Seq<u8>,
    mint_data: Seq<u8>,
    mint_key: Seq<u8>,
    owner_key: Seq<u8>,
    signed: bool,
    amount: u64,
) -> Result<(Seq<u8>, Seq<u8>), ProgError> {
    match (loaded_token_account(ta_data), loaded_mint(mint_data)) {
        (Some(ta), Some(m)) => if !signed {
            Err(ProgError::MissingRequiredSignature)
        } else if ta.owner != owner_key {
            Err(ProgError::MissingRequiredSignature)
        } else if ta.mint != mint_key {
            Err(ProgError::InvalidAccountData)
        } else if amount > ta.amount {
            Err(ProgError::InvalidAccountData)
        } else if amount > m.supply {
            Err(ProgError::Underflow)
        } else {
            Ok(
                (
                    token_account_bytes(
                        TokenAccountV { amount: (ta.amount - amount) as u64, ..ta },
                    ),
                    mint_bytes(MintV { supply: (m.supply - amount) as u64, ..m }),
                ),
            )
        },
        _ => Err(ProgError::InvalidAccountData),
    }
}

/// Transferring: both records must load as token accounts, the source owner
/// must have signed and match, both accounts must share one mint and must be
/// distinct records, and the source balance must cover the amount; the amount
/// then moves from source to destination, overflow checked.
pub open spec fn transfer_outcome(
    src_data: Seq<u8>,
    dst_data: Seq<u8>,
    src_key: Seq<u8>,
    dst_key: Seq<u8>,
    owner_key: Seq<u8>,
    signed: bool,
    amount: u64,
) -> Result<(Seq<u8>, Seq<u8>), ProgError> {
    match (loaded_token_account(src_data), loaded_token_account(dst_data)) {
        (Some(src), Some(dst)) => if !signed {
            Err(ProgError::MissingRequiredSignature)
        } else if src.owner != owner_key {
            Err(ProgError::MissingRequiredSignature)
        } else if src.mint != dst.mint {
            Err(ProgError::InvalidAccountData)
        } else if src_key == dst_key {
            Err(ProgError::InvalidArgument)
        } else if amount > src.amount {
            Err(ProgError::InvalidAccountData)
        } else if dst.amount + amount > u64::MAX {
            Err(ProgError::Overflow)
        } else {
            Ok(
                (
                    token_account_bytes(
                        TokenAccountV { amount: (src.amount - amount) as u64, ..src },
                    ),
                    token_account_bytes(
                        TokenAccountV { amount: (dst.amount + amount) as u64, ..dst },
                    ),
                ),
            )
        },
        _ => Err(ProgError::InvalidAccountData),
    }
}

/// The token program's whole transition. The expected account order is part
/// of the contract: InitializeMint takes (mint, authority);
/// InitializeTokenAccount takes (account, mint, owner); Mint takes (account,
/// mint, authority); Burn takes (account, mint, owner); Transfer takes
/// (source, destination, owner).
pub open spec fn token_step(accounts: Seq<AccountV>, data: Seq<u8>) -> Result<
    Seq<AccountV>,
    ProgError,
> {
    match parse_token_instruction(data) {
        None => Err(ProgError::InvalidInstructionData),
        Some(TokenInstruction::InitializeMint) => if accounts.len() < 2 {
            Err(ProgError::NotEnoughAccountKeys)
        } else {
            match initialize_mint_outcome(
                accounts[0].data,
                accounts[1].key,
                accounts[1].is_signer,
            ) {
                Ok(d) => Ok(accounts.update(0, (AccountV { data: d, ..accounts[0] }))),
                Err(e) => Err(e),
            }
        },
        Some(TokenInstruction::InitializeTokenAccount) => if accounts.len() < 3 {
            Err(ProgError::NotEnoughAccountKeys)
        } else {
            match initialize_token_account_outcome(
                accounts[0].data,
                accounts[1].key,
                accounts[2].key,
            ) {
                Ok(d) => Ok(accounts.update(0, (AccountV { data: d, ..accounts[0] }))),
                Err(e) => Err(e),
            }
        },
        Some(TokenInstruction::Mint { amount }) => if accounts.len() < 3 {
            Err(ProgError::NotEnoughAccountKeys)
        } else {
            match mint_to_outcome(
                accounts[0].data,
                accounts[1].data,
                accounts[1].key,
                accounts[2].key,
                accounts[2].is_signer,
                amount,
            ) {
                Ok(d) => Ok(
                    accounts.update(0, (AccountV { data: d.0, ..accounts[0] })).update(
                        1,
                        (AccountV { data: d.1, ..accounts[1] }),
                    ),
                ),
                Err(e) => Err(e),
            }
        },
        Some(TokenInstruction::Burn { amount }) => if accounts.len() < 3 {
            Err(ProgError::NotEnoughAccountKeys)
        } else {
            match burn_outcome(
                accounts[0].data,
                accounts[1].data,
                accounts[1].key,
                accounts[2].key,
                accounts[2].is_signer,
                amount,
            ) {
                Ok(d) => Ok(
                    accounts.update(0, (AccountV { data: d.0, ..accounts[0] })).update(
                        1,
                        (AccountV { data: d.1, ..accounts[1] }),
                    ),
                ),
                Err(e) => Err(e),
            }
        },
        Some(TokenInstruction::Transfer { amount }) => if accounts.len() < 3 {
            Err(ProgError::NotEnoughAccountKeys)
        } else {
            match transfer_outcome(
                accounts[0].data,
                accounts[1].data,
                accounts[0].key,
                accounts[1].key,
                accounts[2].key,
                accounts[2].is_signer,
                amount,
            ) {
                Ok(d) => Ok(
                    accounts.update(0, (AccountV { data: d.0, ..accounts[0] })).update(
                        1,
                        (AccountV { data: d.1, ..accounts[1] }),
                    ),
                ),
                Err(e) => Err(e),
            }
        },
    }
}

/// Minting conserves the books: on success, the mint's supply and the target
/// account's balance rise by the same amount, the account provably belongs to
/// this mint, and every other field of both records is kept — so the sum of
/// balances over a mint's token accounts keeps pace with its supply.
pub proof fn lemma_mint_conserves(
    ta_data: Seq<u8>,
    mint_data: Seq<u8>,
    mint_key: Seq<u8>,
    authority_key: Seq<u8>,
    signed: bool,
    amount: u64,
)
    requires
        mint_to_outcome(ta_data, mint_data, mint_key, authority_key, signed, amount) is Ok,
    ensures
        ({
            let r = mint_to_outcome(ta_data, mint_data, mint_key, authority_key, signed, amount).unwrap();
            let ta0 = loaded_token_account(ta_data).unwrap();
            let m0 = loaded_mint(mint_data).unwrap();
            &&& loaded_token_account(r.0) is Some
            &&& loaded_mint(r.1) is Some
            &&& loaded_token_account(r.0).unwrap().amount == ta0.amount + amount
            &&& loaded_mint(r.1).unwrap().supply == m0.supply + amount
            &&& loaded_token_account(r.0).unwrap().mint == ta0.mint
            &&& loaded_token_account(r.0).unwrap().owner == ta0.owner
            &&& loaded_mint(r.1).unwrap().authority == m0.authority
            &&& ta0.mint == mint_key
        }),
{
    let ta0 = loaded_token_account(ta_data).unwrap();
    let m0 = loaded_mint(mint_data).unwrap();
    lemma_token_account_parse_saved(
        TokenAccountV { amount: (ta0.amount + amount) as u64, ..ta0 },
    );
    lemma_mint_parse_saved(MintV { supply: (m0.supply + amount) as u64, ..m0 });
}

/// Burning conserves the books: on success, supply and the balance fall by
/// the same amount, the account provably belongs to this mint, and every
/// other field of both records is kept.
pub proof fn lemma_burn_conserves(
    ta_data: Seq<u8>,
    mint_data: Seq<u8>,
    mint_key: Seq<u8>,
    owner_key: Seq<u8>,
    signed: bool,
    amount: u64,
)
    requires
        burn_outcome(ta_data, mint_data, mint_key, owner_key, signed, amount) is Ok,
    ensures
        ({
            let r = burn_outcome(ta_data, mint_data, mint_key, owner_key, signed, amount).unwrap();
            let ta0 = loaded_token_account(ta_data).unwrap();
            let m0 = loaded_mint(mint_data).unwrap();
            &&& loaded_token_account(r.0) is Some
            &&& loaded_mint(r.1) is Some
            &&& loaded_token_account(r.0).unwrap().amount == ta0.amount - amount
            &&& loaded_mint(r.1).unwrap().supply == m0.supply - amount
            &&& loaded_token_account(r.0).unwrap().mint == ta0.mint
            &&& loaded_token_account(r.0).unwrap().owner == ta0.owner
            &&& loaded_mint(r.1).unwrap().authority == m0.authority
            &&& ta0.mint == mint_key
        }),
{
    let ta0 = loaded_token_account(ta_data).unwrap();
    let m0 = loaded_mint(mint_data).unwrap();
    lemma_token_account_parse_saved(
        TokenAccountV { amount: (ta0.amount - amount) as u64, ..ta0 },
    );
    lemma_mint_parse_saved(MintV { supply: (m0.supply - amount) as u64, ..m0 });
}

/// Transferring conserves the books: on success the two balances move by the
/// same amount in opposite directions — their sum is unchanged — both
/// accounts provably share one mint, no mint record is touched at all, and
/// every other field of both accounts is kept.
pub proof fn lemma_transfer_conserves(
    src_data: Seq<u8>,
    dst_data: Seq<u8>,
    src_key: Seq<u8>,
    dst_key: Seq<u8>,
    owner_key: Seq<u8>,
    signed: bool,
    amount: u64,
)
    requires
        transfer_outcome(src_data, dst_data, src_key, dst_key, owner_key, signed, amount) is Ok,
    ensures
        ({
            let r = transfer_outcome(
                src_data,
                dst_data,
                src_key,
                dst_key,
                owner_key,
                signed,
                amount,
            ).unwrap();
            let src0 = loaded_token_account(src_data).unwrap();
            let dst0 = loaded_token_account(dst_data).unwrap();
            &&& loaded_token_account(r.0) is Some
            &&& loaded_token_account(r.1) is Some
            &&& loaded_token_account(r.0).unwrap().amount + loaded_token_account(
                r.1,
            ).unwrap().amount == src0.amount + dst0.amount
            &&& loaded_token_account(r.0).unwrap().mint == src0.mint
            &&& loaded_token_account(r.1).unwrap().mint == dst0.mint
            &&& src0.mint == dst0.mint
            &&& loaded_token_account(r.0).unwrap().owner == src0.owner
            &&& loaded_token_account(r.1).unwrap().owner == dst0.owner
        }),
{
    let src0 = loaded_token_account(src_data).unwrap();
    let dst0 = loaded_token_account(dst_data).unwrap();
    lemma_token_account_parse_saved(
        TokenAccountV { amount: (src0.amount - amount) as u64, ..src0 },
    );
    lemma_token_account_parse_saved(
        TokenAccountV { amount: (dst0.amount + amount) as u64, ..dst0 },
    );
}

/// A transfer between accounts of different mints is refused with
/// `InvalidAccountData`, whatever else holds.
pub proof fn lemma_transfer_mint_mismatch(
    src_data: Seq<u8>,
    dst_data: Seq<u8>,
    src_key: Seq<u8>,
    dst_key: Seq<u8>,
    owner_key: Seq<u8>,
    amount: u64,
)
    requires
        loaded_token_account(src_data) is Some,
        loaded_token_account(dst_data) is Some,
        loaded_token_account(src_data).unwrap().owner == owner_key,
        loaded_token_account(src_data).unwrap().mint != loaded_token_account(
            dst_data,
        ).unwrap().mint,
    ensures
        transfer_outcome(src_data, dst_data, src_key, dst_key, owner_key, true, amount) == Err::<
            (Seq<u8>, Seq<u8>),
            ProgError,
        >(ProgError::InvalidAccountData),
{
}

/// A burn asking for more than the account holds is refused with
/// `InvalidAccountData` — and, an error carrying no new record bytes, leaves
/// both the supply and the balance exactly as they were.
pub proof fn lemma_burn_insufficient(
    ta_data: Seq<u8>,
    mint_data: Seq<u8>,
    mint_key: Seq<u8>,
    owner_key: Seq<u8>,
    amount: u64,
)
    requires
        loaded_token_account(ta_data) is Some,
        loaded_mint(mint_data) is Some,
        loaded_token_account(ta_data).unwrap().owner == owner_key,
        loaded_token_account(ta_data).unwrap().mint == mint_key,
        amount > loaded_token_account(ta_data).unwrap().amount,
    ensures
        burn_outcome(ta_data, mint_data, mint_key, owner_key, true, amount) == Err::<
            (Seq<u8>, Seq<u8>),
            ProgError,
        >(ProgError::InvalidAccountData),
{
}

/// The instruction processor of the token program.
pub struct Processor {}

impl Processor {
    /// Runs one instruction against the supplied account list. On success the
    /// returned list is the input with the touched records rewritten; on
    /// error nothing is returned, so the caller keeps every record as it was.
    pub fn process_instruction(
        _program_id: &Identity,
        accounts: &Vec<Account>,
        instruction_data: &Vec<u8>,
    ) -> (r: Result<Vec<Account>, ProgError>)
        requires
            all_wf(accounts@),
        ensures
            (match r {
                Ok(out) => token_step(views(accounts@), instruction_data@) == Ok::<_, ProgError>(
                    views(out@),
                ),
                Err(e) => token_step(views(accounts@), instruction_data@) == Err::<
                    Seq<AccountV>,
                    _,
                >(e),
            }),
    {
        let instruction = match decode_instruction(instruction_data) {
            Ok(i) => i,
            Err(e) => {
                return Err(e);
            },
        };
        match instruction {
            TokenInstruction::InitializeMint => {
                if accounts.len() < 2 {
                    return Err(ProgError::NotEnoughAccountKeys);
                }
                let mut mint = match Mint::load_unchecked(&accounts[0].data) {
                    Ok(m) => m,
                    Err(e) => {
                        return Err(e);
                    },
                };
                if !accounts[1].is_signer {
                    return Err(ProgError::MissingRequiredSignature);
                }
                mint.tag = AccountTag::Mint;
                mint.authority = accounts[1].key.clone();
                mint.supply = 0;
                let new_data = mint.save();
                let mut out = clone_accounts(accounts);
                set_data(&mut out, 0, new_data);
                proof {
                    assert(views(out@) =~= views(accounts@).update(
                        0,
                        (AccountV { data: mint_bytes(mint@), ..views(accounts@)[0] }),
                    ));
                }
                Ok(out)
            },
            TokenInstruction::InitializeTokenAccount => {
                if accounts.len() < 3 {
                    return Err(ProgError::NotEnoughAccountKeys);
                }
                let mut ta = match TokenAccount::load_unchecked(&accounts[0].data) {
                    Ok(a) => a,
                    Err(e) => {
                        return Err(e);
                    },
                };
                ta.tag = AccountTag::TokenAccount;
                ta.owner = accounts[2].key.clone();
                ta.mint = accounts[1].key.clone();
                ta.amount = 0;
                let new_data = ta.save();
                let mut out = clone_accounts(accounts);
                set_data(&mut out, 0, new_data);
                proof {
                    assert(views(out@) =~= views(accounts@).update(
                        0,
                        (AccountV { data: token_account_bytes(ta@), ..views(accounts@)[0] }),
                    ));
                }
                Ok(out)
            },
            TokenInstruction::Mint { amount } => {
                if accounts.len() < 3 {
                    return Err(ProgError::NotEnoughAccountKeys);
                }
                let mut ta = match TokenAccount::load(&accounts[0].data) {
                    Ok(a) => a,
                    Err(e) => {
                        return Err(e);
                    },
                };
                let mut mint = match Mint::load(&accounts[1].data) {
                    Ok(m) => m,
                    Err(e) => {
                        return Err(e);
                    },
                };
                if !accounts[2].is_signer {
                    return Err(ProgError::MissingRequiredSignature);
                }
                if !mint.authority.same_as(&accounts[2].key) {
                    return Err(ProgError::MissingRequiredSignature);
                }
                if !ta.mint.same_as(&accounts[1].key) {
                    return Err(ProgError::InvalidAccountData);
                }
                if amount > u64::MAX - mint.supply || amount > u64::MAX - ta.amount {
                    return Err(ProgError::Overflow);
                }
                mint.supply = mint.supply + amount;
                ta.amount = ta.amount + amount;
                let ta_data = ta.save();
                let mint_data = mint.save();
                let mut out = clone_accounts(accounts);
                set_data(&mut out, 0, ta_data);
                proof {
                    assert(views(out@) =~= views(accounts@).update(
                        0,
                        (AccountV { data: token_account_bytes(ta@), ..views(accounts@)[0] }),
                    ));
                    assert(out@.len() == accounts@.len());
                    assert(views(out@)[1] == out@[1]@);
                    assert(out@[1]@ == views(accounts@)[1]);
                }
                set_data(&mut out, 1, mint_data);
                proof {
                    assert(views(out@) =~= views(accounts@).update(
                        0,
                        (AccountV { data: token_account_bytes(ta@), ..views(accounts@)[0] }),
                    ).update(1, (AccountV { data: mint_bytes(mint@), ..views(accounts@)[1] })));
                }
                Ok(out)
            },
            TokenInstruction::Burn { amount } => {
                if accounts.len() < 3 {
                    return Err(ProgError::NotEnoughAccountKeys);
                }
                let mut ta = match TokenAccount::load(&accounts[0].data) {
                    Ok(a) => a,
                    Err(e) => {
                        return Err(e);
                    },
                };
                let mut mint = match Mint::load(&accounts[1].data) {
                    Ok(m) => m,
                    Err(e) => {
                        return Err(e);
                    },
                };
                if !accounts[2].is_signer {
                    return Err(ProgError::MissingRequiredSignature);
                }
                if !ta.owner.same_as(&accounts[2].key) {
                    return Err(ProgError::MissingRequiredSignature);
                }
                if !ta.mint.same_as(&accounts[1].key) {
                    return Err(ProgError::InvalidAccountData);
                }
                if amount > ta.amount {
                    return Err(ProgError::InvalidAccountData);
                }
                if amount > mint.supply {
                    return Err(ProgError::Underflow);
                }
                mint.supply = mint.supply - amount;
                ta.amount = ta.amount - amount;
                let ta_data = ta.save();
                let mint_data = mint.save();
                let mut out = clone_accounts(accounts);
                set_data(&mut out, 0, ta_data);
                proof {
                    assert(views(out@) =~= views(accounts@).update(
                        0,
                        (AccountV { data: token_account_bytes(ta@), ..views(accounts@)[0] }),
                    ));
                    assert(out@.len() == accounts@.len());
                    assert(views(out@)[1] == out@[1]@);
                    assert(out@[1]@ == views(accounts@)[1]);
                }
                set_data(&mut out, 1, mint_data);
                proof {
                    assert(views(out@) =~= views(accounts@).update(
                        0,
                        (AccountV { data: token_account_bytes(ta@), ..views(accounts@)[0] }),
                    ).update(1, (AccountV { data: mint_bytes(mint@), ..views(accounts@)[1] })));
                }
                Ok(out)
            },
            TokenInstruction::Transfer { amount } => {
                if accounts.len() < 3 {
                    return Err(ProgError::NotEnoughAccountKeys);
                }
                let mut src = match TokenAccount::load(&accounts[0].data) {
                    Ok(a) => a,
                    Err(e) => {
                        return Err(e);
                    },
                };
                let mut dst = match TokenAccount::load(&accounts[1].data) {
                    Ok(a) => a,
                    Err(e) => {
                        return Err(e);
                    },
                };
                if !accounts[2].is_signer {
                    return Err(ProgError::MissingRequiredSignature);
                }
                if !src.owner.same_as(&accounts[2].key) {
                    return Err(ProgError::MissingRequiredSignature);
                }
                if !src.mint.same_as(&dst.mint) {
                    return Err(ProgError::InvalidAccountData);
                }
                if accounts[0].key.same_as(&accounts[1].key) {
                    return Err(ProgError::InvalidArgument);
                }
                if amount > src.amount {
                    return Err(ProgError::InvalidAccountData);
                }
                if amount > u64::MAX - dst.amount {
                    return Err(ProgError::Overflow);
                }
                src.amount = src.amount - amount;
                dst.amount = dst.amount + amount;
                let src_data = src.save();
                let dst_data = dst.save();
                let mut out = clone_accounts(accounts);
                set_data(&mut out, 0, src_data);
                proof {
                    assert(views(out@) =~= views(accounts@).update(
                        0,
                        (AccountV { data: token_account_bytes(src@), ..views(accounts@)[0] }),
                    ));
                    assert(out@.len() == accounts@.len());
                    assert(views(out@)[1] == out@[1]@);
                    assert(out@[1]@ == views(accounts@)[1]);
                }
                set_data(&mut out, 1, dst_data);
                proof {
                    assert(views(out@) =~= views(accounts@).update(
                        0,
                        (AccountV { data: token_account_bytes(src@), ..views(accounts@)[0] }),
                    ).update(1, (AccountV { data: token_account_bytes(dst@), ..views(accounts@)[1] })));
                }
                Ok(out)
            },
        }
    }
}

} // verus!

