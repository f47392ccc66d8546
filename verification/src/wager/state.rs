//! The accounts of the wager program.

use vstd::prelude::*;
use crate::wager::wire::{
    get_name, get_u16, get_u32, le16, le32, lemma_le16_injective, lemma_le32_injective, overwrite,
    put_name, put_u16, put_u32, WagerError,
};

verus! {

/// One of the options a wager offers, with the votes it has received.
#[derive(Clone, Copy, Debug, PartialEq)]
pub struct OptionType {
    pub name: [u8; 20],
    pub vote_count: u16,
}

/// Where a wager stands.
#[derive(Clone, Copy, Debug, PartialEq, Eq, Structural)]
pub enum WagerState {
    Uninitialized,
    Ongoing,
    Settled,
}

/// The pot of a wager. `params` holds the smallest bet, the largest bet, the
/// smallest and the largest number of players.
#[derive(Clone, Copy, Debug, PartialEq)]
pub struct WagerAccount {
    pub balance: u32,
    pub options: [OptionType; 8],
    pub params: (u32, u32, u16, u16),
    pub player_counter: u16,
    pub bump_seed: u8,
    pub state: WagerState,
}

/// One player's bet on a wager.
#[derive(Clone, Copy, Debug, PartialEq)]
pub struct PlayerAccount {
    pub option_name: [u8; 20],
    pub bet_amount: u32,
    pub voted: u8,
    pub bump_seed: u8,
}

} // verus!

verus! {

/// The bytes of one option: its name, then its votes.
pub open spec fn option_wire(option: OptionType) -> Seq<u8> {
    option.name@ + le16(option.vote_count)
}

/// The bytes of a run of options, one after the other.
pub open spec fn options_wire(options: Seq<OptionType>) -> Seq<u8>
    decreases options.len(),
{
    if options.len() == 0 {
        Seq::empty()
    } else {
        options_wire(options.drop_last()) + option_wire(options.last())
    }
}

/// The byte that stands for a wager's state.
pub open spec fn state_tag(state: WagerState) -> u8 {
    match state {
        WagerState::Uninitialized => 0,
        WagerState::Ongoing => 1,
        WagerState::Settled => 2,
    }
}

/// The bytes of a wager's parameters.
pub open spec fn params_wire(params: (u32, u32, u16, u16)) -> Seq<u8> {
    le32(params.0) + le32(params.1) + le16(params.2) + le16(params.3)
}

/// The bytes of a pot: 196 of them.
pub open spec fn account_wire(account: WagerAccount) -> Seq<u8> {
    le32(account.balance) + options_wire(account.options@) + params_wire(account.params) + le16(
        account.player_counter,
    ) + seq![account.bump_seed, state_tag(account.state)]
}

/// The bytes of a player's bet: 26 of them.
pub open spec fn player_wire(player: PlayerAccount) -> Seq<u8> {
    player.option_name@ + le32(player.bet_amount) + seq![player.voted, player.bump_seed]
}

/// Whether `src` begins with the bytes of a pot.
pub open spec fn holds_account(src: Seq<u8>) -> bool {
    src.len() >= 196 && src[195] <= 2
}

/// Whether `src` begins with the bytes of a player's bet.
pub open spec fn holds_player(src: Seq<u8>) -> bool {
    src.len() >= 26
}

/// A run of options takes 22 bytes for each.
pub proof fn lemma_options_wire_len(options: Seq<OptionType>)
    ensures
        options_wire(options).len() == 22 * options.len(),
    decreases options.len(),
{
    if options.len() > 0 {
        lemma_options_wire_len(options.drop_last());
    }
}

/// A pot takes 196 bytes and ends in the byte of its state.
pub proof fn lemma_account_wire_shape(account: WagerAccount)
    ensures
        account_wire(account).len() == 196,
        account_wire(account)[195] == state_tag(account.state),
        holds_account(account_wire(account)),
{
    lemma_options_wire_len(account.options@);
}

impl Default for OptionType {
    /// An option with an all-zero name and no votes.
    fn default() -> (option: OptionType)
        ensures
            option.vote_count == 0,
            forall|i: int| 0 <= i < 20 ==> option.name@[i] == 0,
    {
        OptionType { name: [0u8; 20], vote_count: 0 }
    }
}

impl WagerState {
    /// The byte that stands for this state.
    pub fn tag(&self) -> (tag: u8)
        ensures
            tag == state_tag(*self),
    {
        match self {
            WagerState::Uninitialized => 0,
            WagerState::Ongoing => 1,
            WagerState::Settled => 2,
        }
    }

    /// The state that `tag` stands for, if it stands for one.
    pub fn from_tag(tag: u8) -> (state: Option<WagerState>)
        ensures
            tag <= 2 ==> state is Some && state_tag(state->Some_0) == tag,
            tag > 2 ==> state is None,
    {
        if tag == 0 {
            Some(WagerState::Uninitialized)
        } else if tag == 1 {
            Some(WagerState::Ongoing)
        } else if tag == 2 {
            Some(WagerState::Settled)
        } else {
            None
        }
    }
}

impl OptionType {
    /// Appends the bytes of this option.
    pub fn pack_onto(&self, out: &mut Vec<u8>)
        ensures
            final(out)@ == old(out)@ + option_wire(*self),
    {
        put_name(out, &self.name);
        put_u16(out, self.vote_count);
        assert(out@ =~= old(out)@ + option_wire(*self));
    }

    /// Reads the option whose bytes begin at `at`.
    pub fn unpack_at(src: &[u8], at: usize) -> (option: OptionType)
        requires
            at + 22 <= src.len(),
        ensures
            option_wire(option) == src@.subrange(at as int, at + 22),
    {
        let name = get_name(src, at);
        let vote_count = get_u16(src, at + 20);
        let option = OptionType { name, vote_count };
        assert(option_wire(option) =~= src@.subrange(at as int, at + 22));
        option
    }
}

impl WagerAccount {
    /// The number of bytes a pot takes.
    pub const LEN: usize = 196;

    /// The bytes of this pot.
    pub fn pack_into_vec(&self) -> (data: Vec<u8>)
        ensures
            data@ == account_wire(*self),
            data@.len() == 196,
    {
        let mut data: Vec<u8> = Vec::new();
        put_u32(&mut data, self.balance);
        let mut i: usize = 0;
        while i < 8
            invariant
                i <= 8,
                data@ == le32(self.balance) + options_wire(self.options@.take(i as int)),
            decreases 8 - i,
        {
            proof {
                let longer = self.options@.take(i + 1);
                assert(longer.drop_last() == self.options@.take(i as int));
                assert(longer.last() == self.options@[i as int]);
            }
            self.options[i].pack_onto(&mut data);
            i += 1;
            assert(data@ =~= le32(self.balance) + options_wire(self.options@.take(i as int)));
        }
        assert(self.options@.take(8) =~= self.options@);
        put_u32(&mut data, self.params.0);
        put_u32(&mut data, self.params.1);
        put_u16(&mut data, self.params.2);
        put_u16(&mut data, self.params.3);
        put_u16(&mut data, self.player_counter);
        data.push(self.bump_seed);
        data.push(self.state.tag());
        proof {
            lemma_account_wire_shape(*self);
            assert(data@ =~= account_wire(*self));
        }
        data
    }

    /// Writes the bytes of this pot over the beginning of `dst`. What
    /// follows them in `dst` stays.
    pub fn pack_into_slice(&self, dst: &mut [u8])
        requires
            old(dst)@.len() >= 196,
        ensures
            final(dst)@ == account_wire(*self) + old(dst)@.skip(196),
    {
        let data = self.pack_into_vec();
        overwrite(dst, &data);
    }

    /// Reads a pot from the beginning of `src`. Bytes after it are not
    /// looked at.
    ///
    /// `src` begins with a pot when it holds at least 196 bytes and the last
    /// of these stands for a state.
    pub fn unpack_from_slice(src: &[u8]) -> (r: Result<WagerAccount, WagerError>)
        ensures
            holds_account(src@) ==> r is Ok && account_wire(r->Ok_0) == src@.take(196),
            !holds_account(src@) ==> r == Err::<WagerAccount, WagerError>(
                WagerError::InvalidAccountData,
            ),
    {
        if src.len() < 196 {
            return Err(WagerError::InvalidAccountData);
        }
        let state = match WagerState::from_tag(src[195]) {
            Some(state) => state,
            None => {
                return Err(WagerError::InvalidAccountData);
            },
        };
        let balance = get_u32(src, 0);
        let mut options: [OptionType; 8] = [OptionType::default();8];
        let mut i: usize = 0;
        while i < 8
            invariant
                i <= 8,
                src@.len() >= 196,
                options_wire(options@.take(i as int)) == src@.subrange(4, 4 + 22 * i),
            decreases 8 - i,
        {
            let option = OptionType::unpack_at(src, 4 + 22 * i);
            let ghost before = options@;
            options[i] = option;
            proof {
                let longer = options@.take(i + 1);
                assert(longer.drop_last() =~= before.take(i as int));
                assert(longer.last() == option);
                assert(options_wire(longer) =~= src@.subrange(4, 4 + 22 * (i + 1)));
            }
            i += 1;
        }
        assert(options@.take(8) =~= options@);
        let params = (get_u32(src, 180), get_u32(src, 184), get_u16(src, 188), get_u16(src, 190));
        let player_counter = get_u16(src, 192);
        let bump_seed = src[194];
        let account = WagerAccount { balance, options, params, player_counter, bump_seed, state };
        proof {
            lemma_account_wire_shape(account);
            assert(account_wire(account) =~= src@.take(196));
        }
        Ok(account)
    }
}

impl PlayerAccount {
    /// The number of bytes a player's bet takes.
    pub const LEN: usize = 26;

    /// The bytes of this bet.
    pub fn pack_into_vec(&self) -> (data: Vec<u8>)
        ensures
            data@ == player_wire(*self),
            data@.len() == 26,
    {
        let mut data: Vec<u8> = Vec::new();
        put_name(&mut data, &self.option_name);
        put_u32(&mut data, self.bet_amount);
        data.push(self.voted);
        data.push(self.bump_seed);
        assert(data@ =~= player_wire(*self));
        data
    }

    /// Writes the bytes of this bet over the beginning of `dst`. What
    /// follows them in `dst` stays.
    pub fn pack_into_slice(&self, dst: &mut [u8])
        requires
            old(dst)@.len() >= 26,
        ensures
            final(dst)@ == player_wire(*self) + old(dst)@.skip(26),
    {
        let data = self.pack_into_vec();
        overwrite(dst, &data);
    }

    /// Reads a player's bet from the beginning of `src`. Bytes after it are
    /// not looked at.
    pub fn unpack_from_slice(src: &[u8]) -> (r: Result<PlayerAccount, WagerError>)
        ensures
            holds_player(src@) ==> r is Ok && player_wire(r->Ok_0) == src@.take(26),
            !holds_player(src@) ==> r == Err::<PlayerAccount, WagerError>(
                WagerError::InvalidAccountData,
            ),
    {
        if src.len() < 26 {
            return Err(WagerError::InvalidAccountData);
        }
        let player = PlayerAccount {
            option_name: get_name(src, 0),
            bet_amount: get_u32(src, 20),
            voted: src[24],
            bump_seed: src[25],
        };
        assert(player_wire(player) =~= src@.take(26));
        Ok(player)
    }
}

} // verus!

verus! {

/// An option is determined by its bytes.
pub proof fn lemma_option_wire_injective(a: OptionType, b: OptionType)
    requires
        option_wire(a) == option_wire(b),
    ensures
        a == b,
{
    assert(a.name@ =~= option_wire(a).subrange(0, 20));
    assert(b.name@ =~= option_wire(b).subrange(0, 20));
    assert(a.name =~= b.name);
    assert(le16(a.vote_count) =~= option_wire(a).subrange(20, 22));
    assert(le16(b.vote_count) =~= option_wire(b).subrange(20, 22));
    lemma_le16_injective(a.vote_count, b.vote_count);
}

/// A run of options is determined by its bytes and its length.
pub proof fn lemma_options_wire_injective(a: Seq<OptionType>, b: Seq<OptionType>)
    requires
        a.len() == b.len(),
        options_wire(a) == options_wire(b),
    ensures
        a == b,
    decreases a.len(),
{
    if a.len() > 0 {
        let cut = 22 * (a.len() - 1);
        lemma_options_wire_len(a.drop_last());
        lemma_options_wire_len(b.drop_last());
        assert(options_wire(a.drop_last()) =~= options_wire(a).subrange(0, cut));
        assert(options_wire(b.drop_last()) =~= options_wire(b).subrange(0, cut));
        assert(option_wire(a.last()) =~= options_wire(a).subrange(cut, cut + 22));
        assert(option_wire(b.last()) =~= options_wire(b).subrange(cut, cut + 22));
        lemma_options_wire_injective(a.drop_last(), b.drop_last());
        lemma_option_wire_injective(a.last(), b.last());
        assert(a =~= a.drop_last().push(a.last()));
        assert(b =~= b.drop_last().push(b.last()));
    } else {
        assert(a =~= b);
    }
}

/// A pot is determined by its bytes.
pub proof fn lemma_account_wire_injective(a: WagerAccount, b: WagerAccount)
    requires
        account_wire(a) == account_wire(b),
    ensures
        a == b,
{
    lemma_options_wire_len(a.options@);
    lemma_options_wire_len(b.options@);
    let wa = account_wire(a);
    let wb = account_wire(b);
    assert(le32(a.balance) =~= wa.subrange(0, 4));
    assert(le32(b.balance) =~= wb.subrange(0, 4));
    lemma_le32_injective(a.balance, b.balance);
    assert(options_wire(a.options@) =~= wa.subrange(4, 180));
    assert(options_wire(b.options@) =~= wb.subrange(4, 180));
    lemma_options_wire_injective(a.options@, b.options@);
    assert(a.options =~= b.options);
    assert(le32(a.params.0) =~= wa.subrange(180, 184));
    assert(le32(b.params.0) =~= wb.subrange(180, 184));
    lemma_le32_injective(a.params.0, b.params.0);
    assert(le32(a.params.1) =~= wa.subrange(184, 188));
    assert(le32(b.params.1) =~= wb.subrange(184, 188));
    lemma_le32_injective(a.params.1, b.params.1);
    assert(le16(a.params.2) =~= wa.subrange(188, 190));
    assert(le16(b.params.2) =~= wb.subrange(188, 190));
    lemma_le16_injective(a.params.2, b.params.2);
    assert(le16(a.params.3) =~= wa.subrange(190, 192));
    assert(le16(b.params.3) =~= wb.subrange(190, 192));
    lemma_le16_injective(a.params.3, b.params.3);
    assert(le16(a.player_counter) =~= wa.subrange(192, 194));
    assert(le16(b.player_counter) =~= wb.subrange(192, 194));
    lemma_le16_injective(a.player_counter, b.player_counter);
    assert(a.bump_seed == wa[194] && b.bump_seed == wb[194]);
    assert(state_tag(a.state) == wa[195] && state_tag(b.state) == wb[195]);
    assert(a.params == b.params);
}

/// A player's bet is determined by its bytes.
pub proof fn lemma_player_wire_injective(a: PlayerAccount, b: PlayerAccount)
    requires
        player_wire(a) == player_wire(b),
    ensures
        a == b,
{
    let wa = player_wire(a);
    let wb = player_wire(b);
    assert(a.option_name@ =~= wa.subrange(0, 20));
    assert(b.option_name@ =~= wb.subrange(0, 20));
    assert(a.option_name =~= b.option_name);
    assert(le32(a.bet_amount) =~= wa.subrange(20, 24));
    assert(le32(b.bet_amount) =~= wb.subrange(20, 24));
    lemma_le32_injective(a.bet_amount, b.bet_amount);
    assert(a.voted == wa[24] && b.voted == wb[24]);
    assert(a.bump_seed == wa[25] && b.bump_seed == wb[25]);
}

} // verus!
