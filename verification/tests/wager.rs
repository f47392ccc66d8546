use solana_program::pubkey::Pubkey;
use soltybet::identity::Identity;
use soltybet::wager::instruction::WagerInstruction;
use soltybet::wager::pots::{
    accept_derived, get_player_address, get_player_address_checked, get_pot_address,
    get_pot_address_checked,
};
use soltybet::wager::state::{OptionType, PlayerAccount, WagerAccount, WagerState};
use soltybet::wager::wire::{get_name, get_u16, get_u32, overwrite, put_name, put_u16, put_u32, WagerError};

fn name(text: &str) -> [u8; 20] {
    let mut bytes = [0u8; 20];
    bytes[..text.len()].copy_from_slice(text.as_bytes());
    bytes
}

fn sample_account() -> WagerAccount {
    let mut options = [OptionType::default(); 8];
    options[0] = OptionType { name: name("red"), vote_count: 3 };
    options[1] = OptionType { name: name("blue"), vote_count: 0x1234 };
    options[7] = OptionType { name: [0xff; 20], vote_count: u16::MAX };
    WagerAccount {
        balance: 0x01020304,
        options,
        params: (10, 0xdeadbeef, 2, 500),
        player_counter: 258,
        bump_seed: 254,
        state: WagerState::Ongoing,
    }
}

fn sample_player() -> PlayerAccount {
    PlayerAccount { option_name: name("blue"), bet_amount: 70000, voted: 1, bump_seed: 253 }
}

fn borsh_of_account(account: &WagerAccount) -> Vec<u8> {
    let options: Vec<([u8; 20], u16)> =
        account.options.iter().map(|option| (option.name, option.vote_count)).collect();
    let options: [([u8; 20], u16); 8] = options.try_into().unwrap();
    let state: u8 = match account.state {
        WagerState::Uninitialized => 0,
        WagerState::Ongoing => 1,
        WagerState::Settled => 2,
    };
    borsh::to_vec(&(
        account.balance,
        options,
        account.params,
        account.player_counter,
        account.bump_seed,
        state,
    ))
    .unwrap()
}

fn borsh_of_player(player: &PlayerAccount) -> Vec<u8> {
    borsh::to_vec(&(player.option_name, player.bet_amount, player.voted, player.bump_seed)).unwrap()
}

#[test]
fn integers_are_little_endian() {
    let mut out = vec![9u8];
    put_u16(&mut out, 0x1234);
    put_u32(&mut out, 0xdeadbeef);
    assert_eq!(out, vec![9, 0x34, 0x12, 0xef, 0xbe, 0xad, 0xde]);
    assert_eq!(&out[1..3], borsh::to_vec(&0x1234u16).unwrap().as_slice());
    assert_eq!(&out[3..], borsh::to_vec(&0xdeadbeefu32).unwrap().as_slice());
    assert_eq!(get_u16(&out, 1), 0x1234);
    assert_eq!(get_u32(&out, 3), 0xdeadbeef);
    assert_eq!(get_u16(&[0xff, 0xff], 0), u16::MAX);
    assert_eq!(get_u32(&[0xff, 0xff, 0xff, 0xff], 0), u32::MAX);
}

#[test]
fn names_are_copied_as_they_are() {
    let mut out = vec![1u8, 2];
    put_name(&mut out, &name("red"));
    assert_eq!(out.len(), 22);
    assert_eq!(&out[2..5], b"red");
    assert_eq!(get_name(&out, 2), name("red"));
}

#[test]
fn overwrite_keeps_the_tail() {
    let mut dst = vec![1u8, 2, 3, 4, 5];
    overwrite(&mut dst, &vec![9, 8]);
    assert_eq!(dst, vec![9, 8, 3, 4, 5]);
    overwrite(&mut dst, &vec![]);
    assert_eq!(dst, vec![9, 8, 3, 4, 5]);
}

#[test]
fn default_option_is_blank() {
    let option = OptionType::default();
    assert_eq!(option.name, [0u8; 20]);
    assert_eq!(option.vote_count, 0);
}

#[test]
fn account_layout_is_that_of_borsh() {
    let account = sample_account();
    let data = account.pack_into_vec();
    assert_eq!(data.len(), 196);
    assert_eq!(data.len(), WagerAccount::LEN);
    assert_eq!(data, borsh_of_account(&account));
    assert_eq!(&data[..4], &[4, 3, 2, 1]);
    assert_eq!(data[195], 1);
    assert_eq!(data[194], 254);
}

#[test]
fn player_layout_is_that_of_borsh() {
    let player = sample_player();
    let data = player.pack_into_vec();
    assert_eq!(data.len(), PlayerAccount::LEN);
    assert_eq!(data, borsh_of_player(&player));
}

#[test]
fn account_is_read_back() {
    let account = sample_account();
    let mut data = account.pack_into_vec();
    assert_eq!(WagerAccount::unpack_from_slice(&data), Ok(account));
    data.extend_from_slice(&[1, 2, 3]);
    assert_eq!(WagerAccount::unpack_from_slice(&data), Ok(account));
    for state in [WagerState::Uninitialized, WagerState::Ongoing, WagerState::Settled] {
        let other = WagerAccount { state, ..account };
        assert_eq!(WagerAccount::unpack_from_slice(&other.pack_into_vec()), Ok(other));
    }
}

#[test]
fn short_or_malformed_account_is_refused() {
    let mut data = sample_account().pack_into_vec();
    assert_eq!(WagerAccount::unpack_from_slice(&data[..195]), Err(WagerError::InvalidAccountData));
    assert_eq!(WagerAccount::unpack_from_slice(&[]), Err(WagerError::InvalidAccountData));
    data[195] = 3;
    assert_eq!(WagerAccount::unpack_from_slice(&data), Err(WagerError::InvalidAccountData));
}

#[test]
fn player_is_read_back() {
    let player = sample_player();
    let mut data = player.pack_into_vec();
    assert_eq!(PlayerAccount::unpack_from_slice(&data), Ok(player));
    data.push(0);
    assert_eq!(PlayerAccount::unpack_from_slice(&data), Ok(player));
    assert_eq!(PlayerAccount::unpack_from_slice(&data[..25]), Err(WagerError::InvalidAccountData));
}

#[test]
fn pack_into_slice_writes_the_beginning() {
    let account = sample_account();
    let mut dst = vec![0xaau8; 200];
    account.pack_into_slice(&mut dst);
    assert_eq!(&dst[..196], account.pack_into_vec().as_slice());
    assert_eq!(&dst[196..], &[0xaa; 4]);
    let player = sample_player();
    let mut dst = vec![0xaau8; 26];
    player.pack_into_slice(&mut dst);
    assert_eq!(dst, player.pack_into_vec());
    let vote = WagerInstruction::VoteWinner { outcome: 5 };
    let mut dst = vec![0xaau8; 3];
    vote.pack_into_slice(&mut dst);
    assert_eq!(dst, vec![2, 5, 0xaa]);
}

#[test]
fn instruction_layout_is_that_of_borsh() {
    let account = sample_account();
    let new_wager = WagerInstruction::NewWager { name: name("derby"), account_state: account };
    let mut expected = vec![0u8];
    expected.extend_from_slice(&borsh::to_vec(&name("derby")).unwrap());
    expected.extend_from_slice(&borsh_of_account(&account));
    assert_eq!(new_wager.pack_into_vec(), expected);
    assert_eq!(expected.len(), 217);

    let player = sample_player();
    let make_bet = WagerInstruction::MakeBet { bet_identifier: name("derby"), player_state: player };
    let mut expected = vec![1u8];
    expected.extend_from_slice(&name("derby"));
    expected.extend_from_slice(&borsh_of_player(&player));
    assert_eq!(make_bet.pack_into_vec(), expected);
    assert_eq!(expected.len(), 47);

    assert_eq!(WagerInstruction::VoteWinner { outcome: 7 }.pack_into_vec(), vec![2, 7]);
    assert_eq!(WagerInstruction::View.pack_into_vec(), vec![3]);
}

#[test]
fn instruction_is_read_back() {
    let instructions = [
        WagerInstruction::NewWager { name: name("derby"), account_state: sample_account() },
        WagerInstruction::MakeBet { bet_identifier: name("derby"), player_state: sample_player() },
        WagerInstruction::VoteWinner { outcome: 200 },
        WagerInstruction::View,
    ];
    for instruction in instructions {
        let mut data = instruction.pack_into_vec();
        assert_eq!(WagerInstruction::unpack_from_slice(&data), Ok(instruction));
        data.extend_from_slice(&[0xee; 5]);
        assert_eq!(WagerInstruction::unpack_from_slice(&data), Ok(instruction));
    }
}

#[test]
fn malformed_instruction_is_refused() {
    let refused = Err(WagerError::InvalidInstructionData);
    assert_eq!(WagerInstruction::unpack_from_slice(&[]), refused);
    assert_eq!(WagerInstruction::unpack_from_slice(&[4]), refused);
    assert_eq!(WagerInstruction::unpack_from_slice(&[255, 0, 0]), refused);
    assert_eq!(WagerInstruction::unpack_from_slice(&[2]), refused);
    let new_wager =
        WagerInstruction::NewWager { name: name("derby"), account_state: sample_account() };
    let mut data = new_wager.pack_into_vec();
    assert_eq!(WagerInstruction::unpack_from_slice(&data[..216]), refused);
    data[216] = 9;
    assert_eq!(WagerInstruction::unpack_from_slice(&data), refused);
    let make_bet =
        WagerInstruction::MakeBet { bet_identifier: name("derby"), player_state: sample_player() };
    assert_eq!(WagerInstruction::unpack_from_slice(&make_bet.pack_into_vec()[..46]), refused);
}

#[test]
fn state_tags_go_both_ways() {
    assert_eq!(WagerState::Uninitialized.tag(), 0);
    assert_eq!(WagerState::Ongoing.tag(), 1);
    assert_eq!(WagerState::Settled.tag(), 2);
    assert_eq!(WagerState::from_tag(1), Some(WagerState::Ongoing));
    assert_eq!(WagerState::from_tag(3), None);
}

#[test]
fn pot_address_is_the_derived_one() {
    let program = Pubkey::new_from_array([11u8; 32]);
    let program_id = Identity::new([11u8; 32]);
    let (expected, bump) = Pubkey::find_program_address(&[&name("derby")], &program);
    let expected = Identity::new(expected.to_bytes());
    assert_eq!(get_pot_address(name("derby"), &program_id), Some((expected, bump)));
    assert_eq!(
        get_pot_address_checked(name("derby"), &expected, &program_id),
        Ok((expected, bump))
    );
    assert_eq!(
        get_pot_address_checked(name("derby"), &program_id, &program_id),
        Err(WagerError::InvalidArgument)
    );
    assert_eq!(
        get_pot_address_checked(name("other"), &expected, &program_id),
        Err(WagerError::InvalidArgument)
    );
}

#[test]
fn player_address_is_the_derived_one() {
    let program = Pubkey::new_from_array([11u8; 32]);
    let program_id = Identity::new([11u8; 32]);
    let funder = [21u8; 32];
    let (expected, bump) = Pubkey::find_program_address(&[&name("derby"), &funder], &program);
    let expected = Identity::new(expected.to_bytes());
    assert_eq!(get_player_address(name("derby"), funder, &program_id), Some((expected, bump)));
    assert_eq!(
        get_player_address_checked(name("derby"), funder, &expected, &program_id),
        Ok((expected, bump))
    );
    assert_eq!(
        get_player_address_checked(name("derby"), [22u8; 32], &expected, &program_id),
        Err(WagerError::InvalidArgument)
    );
    let (pot, _) = get_pot_address(name("derby"), &program_id).unwrap();
    assert_ne!(pot, expected);
}

#[test]
fn underived_address_is_an_invalid_argument() {
    let claimed = Identity::new([1; 32]);
    assert_eq!(accept_derived(None, &claimed), Err(WagerError::InvalidArgument));
    assert_eq!(accept_derived(Some((claimed, 3)), &claimed), Ok((claimed, 3)));
    assert_eq!(
        accept_derived(Some((Identity::new([2; 32]), 3)), &claimed),
        Err(WagerError::InvalidArgument)
    );
}

#[test]
fn bet_is_counted_into_the_pot() {
    let mut pot = sample_account();
    let player = sample_player();
    assert_eq!(pot.record_bet(&player), Ok(()));
    assert_eq!(pot.player_counter, 259);
    assert_eq!(pot.balance, 0x01020304 + 70000);
    assert_eq!(pot.options, sample_account().options);
    let mut full = WagerAccount { player_counter: u16::MAX, ..sample_account() };
    assert_eq!(full.record_bet(&player), Err(WagerError::ArithmeticOverflow));
    assert_eq!(full, WagerAccount { player_counter: u16::MAX, ..sample_account() });
    let mut rich = WagerAccount { balance: u32::MAX - 69999, ..sample_account() };
    assert_eq!(rich.record_bet(&player), Err(WagerError::ArithmeticOverflow));
    assert_eq!(rich.balance, u32::MAX - 69999);
    let mut nearly = WagerAccount { balance: u32::MAX - 70000, ..sample_account() };
    assert_eq!(nearly.record_bet(&player), Ok(()));
    assert_eq!(nearly.balance, u32::MAX);
}
