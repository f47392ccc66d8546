//! The instructions of the wager program.

use vstd::prelude::*;
use vstd::slice::slice_subrange;
use crate::wager::state::{
    account_wire, holds_account, lemma_account_wire_injective, lemma_account_wire_shape,
    lemma_player_wire_injective, player_wire, PlayerAccount, WagerAccount,
};
use crate::wager::wire::{get_name, overwrite, put_name, WagerError};

verus! {

/// What a client can ask of the wager program.
#[derive(Clone, Copy, Debug, PartialEq)]
pub enum WagerInstruction {
    /// Opens a wager called `name` with the pot `account_state`.
    NewWager { name: [u8; 20], account_state: WagerAccount },
    /// Places the bet `player_state` on the wager `bet_identifier`.
    MakeBet { bet_identifier: [u8; 20], player_state: PlayerAccount },
    /// Votes for `outcome` as the winner.
    VoteWinner { outcome: u8 },
    /// Looks at a wager without changing it.
    View,
}

/// The bytes of an instruction: one byte for its kind, then its fields.
pub open spec fn instruction_wire(instruction: WagerInstruction) -> Seq<u8> {
    match instruction {
        WagerInstruction::NewWager { name, account_state } => seq![0u8] + name@ + account_wire(
            account_state,
        ),
        WagerInstruction::MakeBet { bet_identifier, player_state } => seq![1u8] + bet_identifier@
            + player_wire(player_state),
        WagerInstruction::VoteWinner { outcome } => seq![2u8, outcome],
        WagerInstruction::View => seq![3u8],
    }
}

/// How many bytes an instruction of the kind `kind` takes.
pub open spec fn instruction_len(kind: u8) -> int {
    if kind == 0 {
        217
    } else if kind == 1 {
        47
    } else if kind == 2 {
        2
    } else {
        1
    }
}

/// Whether `src` begins with the bytes of an instruction.
pub open spec fn holds_instruction(src: Seq<u8>) -> bool {
    &&& src.len() >= 1
    &&& src[0] <= 3
    &&& src.len() >= instruction_len(src[0])
    &&& src[0] == 0 ==> src[216] <= 2
}

/// An instruction takes as many bytes as its kind says, and begins with its
/// kind.
pub proof fn lemma_instruction_wire_shape(instruction: WagerInstruction)
    ensures
        instruction_wire(instruction).len() == instruction_len(instruction_wire(instruction)[0]),
        holds_instruction(instruction_wire(instruction)),
{
    match instruction {
        WagerInstruction::NewWager { name, account_state } => {
            lemma_account_wire_shape(account_state);
        },
        _ => {},
    }
}

/// No two instructions begin the same bytes: whatever begins with the bytes
/// of an instruction is read back as that instruction and no other.
pub proof fn law_bytes_determine_instruction(a: WagerInstruction, b: WagerInstruction, src: Seq<u8>)
    requires
        instruction_wire(a).is_prefix_of(src),
        instruction_wire(b).is_prefix_of(src),
    ensures
        a == b,
{
    let wa = instruction_wire(a);
    let wb = instruction_wire(b);
    lemma_instruction_wire_shape(a);
    lemma_instruction_wire_shape(b);
    assert(wa[0] == src[0] && wb[0] == src[0]);
    assert(wa =~= wb) by {
        assert forall|i: int| 0 <= i < wa.len() implies wa[i] == wb[i] by {
            assert(wa[i] == src[i] && wb[i] == src[i]);
        }
    }
    match (a, b) {
        (
            WagerInstruction::NewWager { name: name_a, account_state: account_a },
            WagerInstruction::NewWager { name: name_b, account_state: account_b },
        ) => {
            lemma_account_wire_shape(account_a);
            lemma_account_wire_shape(account_b);
            assert(name_a@ =~= wa.subrange(1, 21));
            assert(name_b@ =~= wb.subrange(1, 21));
            assert(name_a =~= name_b);
            assert(account_wire(account_a) =~= wa.subrange(21, 217));
            assert(account_wire(account_b) =~= wb.subrange(21, 217));
            lemma_account_wire_injective(account_a, account_b);
        },
        (
            WagerInstruction::MakeBet { bet_identifier: id_a, player_state: player_a },
            WagerInstruction::MakeBet { bet_identifier: id_b, player_state: player_b },
        ) => {
            assert(id_a@ =~= wa.subrange(1, 21));
            assert(id_b@ =~= wb.subrange(1, 21));
            assert(id_a =~= id_b);
            assert(player_wire(player_a) =~= wa.subrange(21, 47));
            assert(player_wire(player_b) =~= wb.subrange(21, 47));
            lemma_player_wire_injective(player_a, player_b);
        },
        (
            WagerInstruction::VoteWinner { outcome: outcome_a },
            WagerInstruction::VoteWinner { outcome: outcome_b },
        ) => {
            assert(outcome_a == wa[1] && outcome_b == wb[1]);
        },
        _ => {},
    }
}

impl WagerInstruction {
    /// The bytes of this instruction.
    pub fn pack_into_vec(&self) -> (data: Vec<u8>)
        ensures
            data@ == instruction_wire(*self),
    {
        let mut data: Vec<u8> = Vec::new();
        match self {
            WagerInstruction::NewWager { name, account_state } => {
                data.push(0u8);
                put_name(&mut data, name);
                let mut rest = account_state.pack_into_vec();
                data.append(&mut rest);
            },
            WagerInstruction::MakeBet { bet_identifier, player_state } => {
                data.push(1u8);
                put_name(&mut data, bet_identifier);
                let mut rest = player_state.pack_into_vec();
                data.append(&mut rest);
            },
            WagerInstruction::VoteWinner { outcome } => {
                data.push(2u8);
                data.push(*outcome);
            },
            WagerInstruction::View => {
                data.push(3u8);
            },
        }
        assert(data@ =~= instruction_wire(*self));
        data
    }

    /// Writes the bytes of this instruction over the beginning of `dst`.
    /// What follows them in `dst` stays.
    pub fn pack_into_slice(&self, dst: &mut [u8])
        requires
            old(dst)@.len() >= instruction_wire(*self).len(),
        ensures
            final(dst)@ == instruction_wire(*self) + old(dst)@.skip(
                instruction_wire(*self).len() as int,
            ),
    {
        let data = self.pack_into_vec();
        overwrite(dst, &data);
    }

    /// Reads an instruction from the beginning of `src`. Bytes after it are
    /// not looked at.
    ///
    /// `src` begins with an instruction when its first byte names a kind, it
    /// holds as many bytes as that kind takes and, where the instruction
    /// carries a pot, the pot's last byte stands for a state.
    pub fn unpack_from_slice(src: &[u8]) -> (r: Result<WagerInstruction, WagerError>)
        ensures
            holds_instruction(src@) ==> r is Ok && instruction_wire(r->Ok_0) == src@.take(
                instruction_len(src@[0]),
            ),
            !holds_instruction(src@) ==> r == Err::<WagerInstruction, WagerError>(
                WagerError::InvalidInstructionData,
            ),
    {
        let n = src.len();
        if n < 1 {
            return Err(WagerError::InvalidInstructionData);
        }
        let kind = src[0];
        if kind == 0 {
            if n < 217 {
                return Err(WagerError::InvalidInstructionData);
            }
            let name = get_name(src, 1);
            let rest = slice_subrange(src, 21, n);
            assert(holds_account(rest@) <==> src@[216] <= 2) by {
                assert(rest@[195] == src@[216]);
            }
            match WagerAccount::unpack_from_slice(rest) {
                Ok(account_state) => {
                    let instruction = WagerInstruction::NewWager { name, account_state };
                    proof {
                        lemma_account_wire_shape(account_state);
                        assert(instruction_wire(instruction) =~= src@.take(217));
                    }
                    Ok(instruction)
                },
                Err(_) => Err(WagerError::InvalidInstructionData),
            }
        } else if kind == 1 {
            if n < 47 {
                return Err(WagerError::InvalidInstructionData);
            }
            let bet_identifier = get_name(src, 1);
            let rest = slice_subrange(src, 21, n);
            match PlayerAccount::unpack_from_slice(rest) {
                Ok(player_state) => {
                    let instruction = WagerInstruction::MakeBet { bet_identifier, player_state };
                    assert(instruction_wire(instruction) =~= src@.take(47));
                    Ok(instruction)
                },
                Err(_) => Err(WagerError::InvalidInstructionData),
            }
        } else if kind == 2 {
            if n < 2 {
                return Err(WagerError::InvalidInstructionData);
            }
            let instruction = WagerInstruction::VoteWinner { outcome: src[1] };
            assert(instruction_wire(instruction) =~= src@.take(2));
            Ok(instruction)
        } else if kind == 3 {
            assert(instruction_wire(WagerInstruction::View) =~= src@.take(1));
            Ok(WagerInstruction::View)
        } else {
            Err(WagerError::InvalidInstructionData)
        }
    }
}

} // verus!
