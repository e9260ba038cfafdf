//! APDU commands (ISO/IEC 7816-4, short form): building, encoding and decoding.
use vstd::prelude::*;

use crate::error::CommandError;
use crate::response::{append_bytes, bytes_to_vec};

verus! {

/// Expected length (Le) byte of a command
pub type ExpectedLength = u8;

/// A short-form APDU command: header, optional data field (1 to 255 bytes)
/// and optional expected length byte.
#[derive(Debug, PartialEq, Eq)]
pub struct Command {
    cla: u8,
    ins: u8,
    p1: u8,
    p2: u8,
    data: Option<Vec<u8>>,
    le: Option<u8>,
}

/// Abstract value of a command.
pub struct CommandView {
    /// Class byte
    pub cla: u8,
    /// Instruction byte
    pub ins: u8,
    /// Parameter 1
    pub p1: u8,
    /// Parameter 2
    pub p2: u8,
    /// Data field, if any (never empty)
    pub data: Option<Seq<u8>>,
    /// Expected length byte, if any
    pub le: Option<u8>,
}

/// A command value that has a short-form encoding: a data field holds 1 to 255 bytes.
pub open spec fn command_wf(c: CommandView) -> bool {
    c.data matches Some(d) ==> 1 <= d.len() <= 255
}

impl View for Command {
    type V = CommandView;

    closed spec fn view(&self) -> CommandView {
        CommandView {
            cla: self.cla,
            ins: self.ins,
            p1: self.p1,
            p2: self.p2,
            data: match self.data {
                Some(d) => Some(d@),
                None => None,
            },
            le: self.le,
        }
    }
}

/// Short-form encoding: CLA INS P1 P2 [Lc data] [Le].
pub open spec fn spec_command_to_bytes(c: CommandView) -> Seq<u8> {
    let header = seq![c.cla, c.ins, c.p1, c.p2];
    let body = match c.data {
        Some(d) => seq![d.len() as u8] + d,
        None => Seq::<u8>::empty(),
    };
    let trailer = match c.le {
        Some(le) => seq![le],
        None => Seq::<u8>::empty(),
    };
    header + body + trailer
}

/// Decoding of short-form command bytes (cases 1 to 4 of ISO/IEC 7816-3).
pub open spec fn spec_command_from_bytes(b: Seq<u8>) -> Option<CommandView> {
    if b.len() < 4 {
        None
    } else if b.len() == 4 {
        Some(CommandView { cla: b[0], ins: b[1], p1: b[2], p2: b[3], data: None, le: None })
    } else if b.len() == 5 {
        Some(CommandView { cla: b[0], ins: b[1], p1: b[2], p2: b[3], data: None, le: Some(b[4]) })
    } else {
        let lc = b[4] as int;
        if lc == 0 {
            None
        } else if b.len() == 5 + lc {
            Some(CommandView {
                cla: b[0], ins: b[1], p1: b[2], p2: b[3],
                data: Some(b.subrange(5, 5 + lc)),
                le: None,
            })
        } else if b.len() == 6 + lc {
            Some(CommandView {
                cla: b[0], ins: b[1], p1: b[2], p2: b[3],
                data: Some(b.subrange(5, 5 + lc)),
                le: Some(b[5 + lc]),
            })
        } else {
            None
        }
    }
}

impl Command {
    #[verifier::type_invariant]
    spec fn inv(self) -> bool {
        self.data matches Some(d) ==> 1 <= d@.len() <= 255
    }

    /// Create a command with the given header and neither data nor expected length
    pub fn new(cla: u8, ins: u8, p1: u8, p2: u8) -> (res: Self)
        ensures
            res@ == (CommandView { cla, ins, p1, p2, data: None, le: None }),
    {
        Command { cla, ins, p1, p2, data: None, le: None }
    }

    /// Create a command with the given header and expected length
    pub fn new_with_le(cla: u8, ins: u8, p1: u8, p2: u8, le: ExpectedLength) -> (res: Self)
        ensures
            res@ == (CommandView { cla, ins, p1, p2, data: None, le: Some(le) }),
    {
        Command { cla, ins, p1, p2, data: None, le: Some(le) }
    }

    /// Set the data field; an empty data field means no data field
    pub fn with_data(self, data: Vec<u8>) -> (res: Self)
        requires
            data@.len() <= 255,
        ensures
            res@ == (CommandView {
                data: if data@.len() == 0 { None } else { Some(data@) },
                ..self@
            }),
    {
        proof { use_type_invariant(&self); }
        let Command { cla, ins, p1, p2, data: _, le } = self;
        if data.len() == 0 {
            Command { cla, ins, p1, p2, data: None, le }
        } else {
            Command { cla, ins, p1, p2, data: Some(data), le }
        }
    }

    /// Set the expected length
    pub fn with_le(self, le: ExpectedLength) -> (res: Self)
        ensures
            res@ == (CommandView { le: Some(le), ..self@ }),
    {
        proof { use_type_invariant(&self); }
        let Command { cla, ins, p1, p2, data, le: _ } = self;
        Command { cla, ins, p1, p2, data, le: Some(le) }
    }

    /// The class byte
    pub fn class(&self) -> (res: u8)
        ensures
            res == self@.cla,
    {
        self.cla
    }

    /// The instruction byte
    pub fn instruction(&self) -> (res: u8)
        ensures
            res == self@.ins,
    {
        self.ins
    }

    /// Parameter 1
    pub fn p1(&self) -> (res: u8)
        ensures
            res == self@.p1,
    {
        self.p1
    }

    /// Parameter 2
    pub fn p2(&self) -> (res: u8)
        ensures
            res == self@.p2,
    {
        self.p2
    }

    /// The data field, if any
    pub fn data(&self) -> (res: Option<&[u8]>)
        ensures
            res is Some <==> self@.data is Some,
            res matches Some(d) ==> self@.data == Some(d@),
    {
        match &self.data {
            Some(d) => Some(d.as_slice()),
            None => None,
        }
    }

    /// The expected length, if any
    pub fn expected_length(&self) -> (res: Option<ExpectedLength>)
        ensures
            res == self@.le,
    {
        self.le
    }

    /// Encode the command into bytes
    pub fn to_bytes(&self) -> (res: Vec<u8>)
        ensures
            res@ == spec_command_to_bytes(self@),
            command_wf(self@),
    {
        proof { use_type_invariant(self); }
        let mut out: Vec<u8> = Vec::new();
        out.push(self.cla);
        out.push(self.ins);
        out.push(self.p1);
        out.push(self.p2);
        match &self.data {
            Some(d) => {
                out.push(d.len() as u8);
                append_bytes(&mut out, d.as_slice());
            },
            None => {},
        }
        match self.le {
            Some(le) => out.push(le),
            None => {},
        }
        proof {
            let v = self@;
            let header = seq![v.cla, v.ins, v.p1, v.p2];
            assert(out@ =~= spec_command_to_bytes(v));
        }
        out
    }

    /// Decode command bytes
    pub fn from_bytes(b: &[u8]) -> (res: Result<Self, CommandError>)
        ensures
            res is Ok <==> spec_command_from_bytes(b@) is Some,
            res matches Ok(c) ==> spec_command_from_bytes(b@) == Some(c@),
            res matches Err(e) ==> e == CommandError::InvalidLength(b@.len() as usize),
    {
        let n = b.len();
        if n < 4 {
            return Err(CommandError::InvalidLength(n));
        }
        if n == 4 {
            return Ok(Command { cla: b[0], ins: b[1], p1: b[2], p2: b[3], data: None, le: None });
        }
        if n == 5 {
            return Ok(Command { cla: b[0], ins: b[1], p1: b[2], p2: b[3], data: None, le: Some(b[4]) });
        }
        let lc = b[4] as usize;
        if lc == 0 {
            return Err(CommandError::InvalidLength(n));
        }
        if n == 5 + lc {
            let d = bytes_to_vec(&b[5..5 + lc]);
            Ok(Command { cla: b[0], ins: b[1], p1: b[2], p2: b[3], data: Some(d), le: None })
        } else if n == 6 + lc {
            let d = bytes_to_vec(&b[5..5 + lc]);
            Ok(Command { cla: b[0], ins: b[1], p1: b[2], p2: b[3], data: Some(d), le: Some(b[5 + lc]) })
        } else {
            Err(CommandError::InvalidLength(n))
        }
    }
}

/// Decoding the encoding of a command gives the command back.
pub proof fn lemma_command_encode_decode(c: CommandView)
    requires
        command_wf(c),
    ensures
        spec_command_from_bytes(spec_command_to_bytes(c)) == Some(c),
{
    let b = spec_command_to_bytes(c);
    match c.data {
        Some(d) => {
            assert(b[4] == d.len() as u8);
            assert(b.subrange(5, 5 + d.len() as int) =~= d);
        },
        None => {},
    }
    let r = spec_command_from_bytes(b).unwrap();
    assert(r.data == c.data);
}

/// Encoding decoded command bytes gives the same bytes.
pub proof fn lemma_command_decode_encode(b: Seq<u8>)
    requires
        spec_command_from_bytes(b) is Some,
    ensures
        spec_command_to_bytes(spec_command_from_bytes(b).unwrap()) == b,
{
    let c = spec_command_from_bytes(b).unwrap();
    assert(spec_command_to_bytes(c) =~= b);
}

} // verus!
