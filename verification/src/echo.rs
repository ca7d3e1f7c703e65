//! The echo program's records and instructions: a buffer that echoes bytes
//! back, and an authority-bound variant. Byte runs travel with a 4-byte
//! little-endian length prefix; sizes travel as 8 little-endian bytes.

use vstd::prelude::*;
use vstd::bytes::*;
use crate::codec::{push_bytes, push_u32_le, read_bytes, read_u32_le, read_u64_le};
use crate::errors::ProgError;
use crate::identity::Identity;

verus! {

/// The mathematical value of an echo record.
pub ghost struct EchoV {
    pub data: Seq<u8>,
}

/// An echo record: a byte buffer.
#[derive(Debug)]
pub struct Echo {
    pub data: Vec<u8>,
}

impl View for Echo {
    type V = EchoV;

    open spec fn view(&self) -> EchoV {
        EchoV { data: self.data@ }
    }
}

/// The layout: a 4-byte little-endian length, then exactly that many bytes.
pub open spec fn echo_bytes(e: EchoV) -> Seq<u8>
    recommends
        e.data.len() <= u32::MAX,
{
    spec_u32_to_le_bytes(e.data.len() as u32) + e.data
}

/// Parses an echo record: the prefix must name the rest's exact length.
pub open spec fn parse_echo(data: Seq<u8>) -> Option<EchoV> {
    if data.len() >= 4 && spec_u32_from_le_bytes(data.subrange(0, 4)) == data.len() - 4 {
        Some(EchoV { data: data.skip(4) })
    } else {
        None
    }
}

/// Saving a parsed echo record reproduces the buffer bit for bit.
pub proof fn lemma_echo_round_trip(data: Seq<u8>)
    ensures
        (match parse_echo(data) {
            Some(e) => echo_bytes(e) == data,
            None => true,
        }),
{
    lemma_auto_spec_u32_to_from_le_bytes();
    if parse_echo(data) is Some {
        let e = parse_echo(data).unwrap();
        assert(spec_u32_to_le_bytes((data.len() - 4) as u32) =~= data.subrange(0, 4));
        assert(echo_bytes(e) =~= data);
    }
}

/// Parsing a saved echo record yields the record back.
pub proof fn lemma_echo_parse_saved(e: EchoV)
    requires
        e.data.len() <= u32::MAX,
    ensures
        parse_echo(echo_bytes(e)) == Some(e),
{
    lemma_auto_spec_u32_to_from_le_bytes();
    let data = echo_bytes(e);
    assert(data.subrange(0, 4) =~= spec_u32_to_le_bytes(e.data.len() as u32));
    assert(data.skip(4) =~= e.data);
}

impl Echo {
    /// Reads an echo record from a raw buffer.
    pub fn load(data: &Vec<u8>) -> (r: Result<Echo, ProgError>)
        ensures
            (match r {
                Ok(e) => parse_echo(data@) == Some(e@),
                Err(e) => parse_echo(data@) is None && e == ProgError::InvalidAccountData,
            }),
    {
        if data.len() < 4 {
            return Err(ProgError::InvalidAccountData);
        }
        let len = read_u32_le(data, 0);
        if len as usize != data.len() - 4 {
            return Err(ProgError::InvalidAccountData);
        }
        Ok(Echo { data: read_bytes(data, 4, data.len()) })
    }

    /// Serializes the record: length prefix, then the bytes.
    pub fn save(&self) -> (r: Vec<u8>)
        requires
            self.data@.len() <= u32::MAX,
        ensures
            r@ == echo_bytes(self@),
    {
        let mut out: Vec<u8> = Vec::new();
        push_u32_le(&mut out, self.data.len() as u32);
        push_bytes(&mut out, &self.data);
        out
    }
}

/// The mathematical value of an authority-bound echo record.
pub ghost struct AuthorizedEchoV {
    pub authority: Seq<u8>,
    pub data: Seq<u8>,
}

/// An authority-bound echo record: the controlling identity, then the buffer.
#[derive(Debug)]
pub struct AuthorizedEcho {
    pub authority: Identity,
    pub data: Vec<u8>,
}

impl View for AuthorizedEcho {
    type V = AuthorizedEchoV;

    open spec fn view(&self) -> AuthorizedEchoV {
        AuthorizedEchoV { authority: self.authority@, data: self.data@ }
    }
}

/// The layout: the authority's 32 bytes, a 4-byte little-endian length, then
/// exactly that many bytes.
pub open spec fn authorized_echo_bytes(e: AuthorizedEchoV) -> Seq<u8>
    recommends
        e.authority.len() == 32,
        e.data.len() <= u32::MAX,
{
    e.authority + spec_u32_to_le_bytes(e.data.len() as u32) + e.data
}

/// Parses an authority-bound echo record.
pub open spec fn parse_authorized_echo(data: Seq<u8>) -> Option<AuthorizedEchoV> {
    if data.len() >= 36 && spec_u32_from_le_bytes(data.subrange(32, 36)) == data.len() - 36 {
        Some(AuthorizedEchoV { authority: data.subrange(0, 32), data: data.skip(36) })
    } else {
        None
    }
}

/// Saving a parsed record reproduces the buffer bit for bit.
pub proof fn lemma_authorized_echo_round_trip(data: Seq<u8>)
    ensures
        (match parse_authorized_echo(data) {
            Some(e) => authorized_echo_bytes(e) == data,
            None => true,
        }),
{
    lemma_auto_spec_u32_to_from_le_bytes();
    if parse_authorized_echo(data) is Some {
        let e = parse_authorized_echo(data).unwrap();
        assert(spec_u32_to_le_bytes((data.len() - 36) as u32) =~= data.subrange(32, 36));
        assert(authorized_echo_bytes(e) =~= data);
    }
}

/// Parsing a saved record yields the record back.
pub proof fn lemma_authorized_echo_parse_saved(e: AuthorizedEchoV)
    requires
        e.authority.len() == 32,
        e.data.len() <= u32::MAX,
    ensures
        parse_authorized_echo(authorized_echo_bytes(e)) == Some(e),
{
    lemma_auto_spec_u32_to_from_le_bytes();
    let data = authorized_echo_bytes(e);
    assert(data.subrange(0, 32) =~= e.authority);
    assert(data.subrange(32, 36) =~= spec_u32_to_le_bytes(e.data.len() as u32));
    assert(data.skip(36) =~= e.data);
}

impl AuthorizedEcho {
    /// Reads an authority-bound echo record from a raw buffer.
    pub fn load(data: &Vec<u8>) -> (r: Result<AuthorizedEcho, ProgError>)
        ensures
            (match r {
                Ok(e) => parse_authorized_echo(data@) == Some(e@) && e.authority.wf(),
                Err(e) => parse_authorized_echo(data@) is None && e
                    == ProgError::InvalidAccountData,
            }),
    {
        if data.len() < 36 {
            return Err(ProgError::InvalidAccountData);
        }
        let len = read_u32_le(data, 32);
        if len as usize != data.len() - 36 {
            return Err(ProgError::InvalidAccountData);
        }
        let authority = Identity::from_bytes(read_bytes(data, 0, 32));
        Ok(AuthorizedEcho { authority, data: read_bytes(data, 36, data.len()) })
    }

    /// Serializes the record: authority, length prefix, bytes.
    pub fn save(&self) -> (r: Vec<u8>)
        requires
            self.authority.wf(),
            self.data@.len() <= u32::MAX,
        ensures
            r@ == authorized_echo_bytes(self@),
    {
        let mut out: Vec<u8> = Vec::new();
        push_bytes(&mut out, &self.authority.bytes);
        push_u32_le(&mut out, self.data.len() as u32);
        push_bytes(&mut out, &self.data);
        proof {
            assert(out@ =~= authorized_echo_bytes(self@));
        }
        out
    }
}

/// The mathematical value of an echo instruction.
pub ghost enum EchoInstructionV {
    Echo { data: Seq<u8> },
    InitAuthorizedEcho { buffer_seed: u64, buffer_size: u64 },
    AuthorizedEcho { data: Seq<u8> },
    InitVendingMachineEcho { price: u64, buffer_size: u64 },
    VendingMachineEcho { data: Seq<u8> },
}

/// The instruction set of the echo program.
#[derive(Debug)]
pub enum EchoInstruction {
    Echo { data: Vec<u8> },
    InitAuthorizedEcho { buffer_seed: u64, buffer_size: usize },
    AuthorizedEcho { data: Vec<u8> },
    InitVendingMachineEcho { price: u64, buffer_size: usize },
    VendingMachineEcho { data: Vec<u8> },
}

impl View for EchoInstruction {
    type V = EchoInstructionV;

    open spec fn view(&self) -> EchoInstructionV {
        match self {
            EchoInstruction::Echo { data } => EchoInstructionV::Echo { data: data@ },
            EchoInstruction::InitAuthorizedEcho { buffer_seed, buffer_size } =>
                EchoInstructionV::InitAuthorizedEcho {
                buffer_seed: *buffer_seed,
                buffer_size: *buffer_size as u64,
            },
            EchoInstruction::AuthorizedEcho { data } => EchoInstructionV::AuthorizedEcho {
                data: data@,
            },
            EchoInstruction::InitVendingMachineEcho { price, buffer_size } =>
                EchoInstructionV::InitVendingMachineEcho {
                price: *price,
                buffer_size: *buffer_size as u64,
            },
            EchoInstruction::VendingMachineEcho { data } => EchoInstructionV::VendingMachineEcho {
                data: data@,
            },
        }
    }
}

/// Instruction bytes: a tag byte; byte runs carry a 4-byte length prefix and
/// sizes travel as 8 bytes, refused where they exceed this machine's address
/// width.
pub open spec fn parse_echo_instruction(data: Seq<u8>) -> Option<EchoInstructionV> {
    if data.len() >= 5 && data[0] == 0u8 && spec_u32_from_le_bytes(data.subrange(1, 5))
        == data.len() - 5 {
        Some(EchoInstructionV::Echo { data: data.skip(5) })
    } else if data.len() == 17 && data[0] == 1u8 && spec_u64_from_le_bytes(data.subrange(9, 17))
        <= usize::MAX as u64 {
        Some(
            EchoInstructionV::InitAuthorizedEcho {
                buffer_seed: spec_u64_from_le_bytes(data.subrange(1, 9)),
                buffer_size: spec_u64_from_le_bytes(data.subrange(9, 17)),
            },
        )
    } else if data.len() >= 5 && data[0] == 2u8 && spec_u32_from_le_bytes(data.subrange(1, 5))
        == data.len() - 5 {
        Some(EchoInstructionV::AuthorizedEcho { data: data.skip(5) })
    } else if data.len() == 17 && data[0] == 3u8 && spec_u64_from_le_bytes(data.subrange(9, 17))
        <= usize::MAX as u64 {
        Some(
            EchoInstructionV::InitVendingMachineEcho {
                price: spec_u64_from_le_bytes(data.subrange(1, 9)),
                buffer_size: spec_u64_from_le_bytes(data.subrange(9, 17)),
            },
        )
    } else if data.len() >= 5 && data[0] == 4u8 && spec_u32_from_le_bytes(data.subrange(1, 5))
        == data.len() - 5 {
        Some(EchoInstructionV::VendingMachineEcho { data: data.skip(5) })
    } else {
        None
    }
}

/// Decodes instruction bytes for the echo program.
pub fn decode_instruction(data: &Vec<u8>) -> (r: Result<EchoInstruction, ProgError>)
    ensures
        (match r {
            Ok(i) => parse_echo_instruction(data@) == Some(i@),
            Err(e) => parse_echo_instruction(data@) is None && e
                == ProgError::InvalidInstructionData,
        }),
{
    let n = data.len();
    if n >= 5 && (data[0] == 0u8 || data[0] == 2u8 || data[0] == 4u8) {
        let len = read_u32_le(data, 1);
        if len as usize != n - 5 {
            return Err(ProgError::InvalidInstructionData);
        }
        let payload = read_bytes(data, 5, n);
        if data[0] == 0u8 {
            Ok(EchoInstruction::Echo { data: payload })
        } else if data[0] == 2u8 {
            Ok(EchoInstruction::AuthorizedEcho { data: payload })
        } else {
            Ok(EchoInstruction::VendingMachineEcho { data: payload })
        }
    } else if n == 17 && (data[0] == 1u8 || data[0] == 3u8) {
        let first = read_u64_le(data, 1);
        let size = read_u64_le(data, 9);
        if size > usize::MAX as u64 {
            return Err(ProgError::InvalidInstructionData);
        }
        if data[0] == 1u8 {
            Ok(EchoInstruction::InitAuthorizedEcho {
                buffer_seed: first,
                buffer_size: size as usize,
            })
        } else {
            Ok(EchoInstruction::InitVendingMachineEcho {
                price: first,
                buffer_size: size as usize,
            })
        }
    } else {
        Err(ProgError::InvalidInstructionData)
    }
}

} // verus!
