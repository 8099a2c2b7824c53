use sol_betting_game::{
    admin_withdraw, change_owner, claim_reward, deposit, draw_winner, initialize, require_admin,
    require_claimant, Address, Config, Custody, ErrorCode, Payout, RoundInfo, Transfer,
    WinnerRecord, Winners,
};

fn key(tag: u8) -> Address {
    let mut bytes = [0xabu8; 32];
    bytes[5] = tag;
    Address::new_from_array(bytes)
}

const ADMIN: u8 = 100;
const MINT: u8 = 200;

fn started() -> (Config, RoundInfo, Winners) {
    let mut config = Config::new();
    let mut round = RoundInfo::new();
    let mut winners = Winners::new();
    initialize(&mut config, &mut round, &mut winners, key(ADMIN)).unwrap();
    (config, round, winners)
}

#[test]
fn new_config_is_not_initialized() {
    let config = Config::new();
    assert!(config.owner.is_default());
    assert_eq!(config.current_round, 0);
}

#[test]
fn initialize_sets_everything_up() {
    let mut config = Config::new();
    let mut round = RoundInfo {
        deposits: Vec::new(),
        total_deposits: 77,
        is_round_open: false,
        deposit_indices: Vec::new(),
    };
    let mut winners = Winners { records: vec![WinnerRecord { winner: key(1), amount: 0 }] };
    assert_eq!(initialize(&mut config, &mut round, &mut winners, key(ADMIN)), Ok(()));
    assert_eq!(config, Config { owner: key(ADMIN), current_round: 0 });
    assert_eq!(round, RoundInfo::new());
    assert_eq!(winners, Winners::new());
}

#[test]
fn initialize_twice_is_refused() {
    let (mut config, mut round, mut winners) = started();
    deposit(&mut round, key(1), key(MINT), 10).unwrap();
    winners.credit(key(2), 5).unwrap();
    let before = (config, round.clone(), winners.clone());
    assert_eq!(
        initialize(&mut config, &mut round, &mut winners, key(3)),
        Err(ErrorCode::AlreadyInitialized)
    );
    assert_eq!(
        initialize(&mut config, &mut round, &mut winners, Address::default()),
        Err(ErrorCode::AlreadyInitialized)
    );
    assert_eq!((config, round, winners), before);
}

#[test]
fn initialize_with_the_null_address_is_refused() {
    let mut config = Config::new();
    let mut round = RoundInfo::new();
    let mut winners = Winners::new();
    assert_eq!(
        initialize(&mut config, &mut round, &mut winners, Address::default()),
        Err(ErrorCode::Unauthorized)
    );
    assert_eq!(config, Config::new());
}

#[test]
fn access_checks() {
    let (config, _, _) = started();
    assert_eq!(require_admin(&config, &key(ADMIN)), Ok(()));
    assert_eq!(require_admin(&config, &key(1)), Err(ErrorCode::Unauthorized));
    let record = WinnerRecord { winner: key(1), amount: 3 };
    assert_eq!(require_claimant(&key(1), &record), Ok(()));
    assert_eq!(require_claimant(&key(2), &record), Err(ErrorCode::Unauthorized));
}

#[test]
fn scenario_two_depositors_draw_and_claim() {
    let (mut config, mut round, mut winners) = started();
    let (a, b) = (key(1), key(2));
    deposit(&mut round, a, key(MINT), 100).unwrap();
    deposit(&mut round, b, key(MINT), 50).unwrap();

    let drawn = draw_winner(&mut config, &mut round, &mut winners, key(ADMIN), a);
    assert_eq!(
        drawn,
        Ok(Transfer { from: Custody::RoundVault, to: Custody::PrizeVault, amount: 150 })
    );
    assert_eq!(winners.records, vec![WinnerRecord { winner: a, amount: 150 }]);
    assert_eq!(round, RoundInfo::new());
    assert_eq!(config, Config { owner: key(ADMIN), current_round: 1 });

    let claimed = claim_reward(&mut winners, a, 5);
    assert_eq!(
        claimed,
        Ok(Payout {
            fee_leg: Some(Transfer {
                from: Custody::PrizeVault,
                to: Custody::FeeAccount,
                amount: 7,
            }),
            payout_leg: Transfer {
                from: Custody::PrizeVault,
                to: Custody::Holder(a),
                amount: 143,
            },
        })
    );
    assert!(winners.records.is_empty());
}

#[test]
fn scenario_draw_by_a_stranger_is_unauthorized() {
    let (mut config, mut round, mut winners) = started();
    deposit(&mut round, key(1), key(MINT), 100).unwrap();
    let before = (config, round.clone(), winners.clone());
    assert_eq!(
        draw_winner(&mut config, &mut round, &mut winners, key(1), key(1)),
        Err(ErrorCode::Unauthorized)
    );
    assert_eq!((config, round, winners), before);
}

#[test]
fn scenario_claim_by_one_who_never_deposited() {
    let (mut config, mut round, mut winners) = started();
    deposit(&mut round, key(1), key(MINT), 100).unwrap();
    draw_winner(&mut config, &mut round, &mut winners, key(ADMIN), key(1)).unwrap();
    let before = winners.clone();
    assert_eq!(claim_reward(&mut winners, key(3), 5), Err(ErrorCode::NoPrize));
    assert_eq!(winners, before);
}

#[test]
fn unauthorized_comes_before_every_other_refusal() {
    let (mut config, mut round, mut winners) = started();
    assert_eq!(
        draw_winner(&mut config, &mut round, &mut winners, key(1), key(2)),
        Err(ErrorCode::Unauthorized)
    );
    round.is_round_open = false;
    assert_eq!(
        draw_winner(&mut config, &mut round, &mut winners, key(1), key(2)),
        Err(ErrorCode::Unauthorized)
    );
}

#[test]
fn draw_on_a_closed_round_is_refused() {
    let (mut config, mut round, mut winners) = started();
    deposit(&mut round, key(1), key(MINT), 100).unwrap();
    round.is_round_open = false;
    let before = (config, round.clone(), winners.clone());
    assert_eq!(
        draw_winner(&mut config, &mut round, &mut winners, key(ADMIN), key(1)),
        Err(ErrorCode::RoundClosed)
    );
    assert_eq!((config, round, winners), before);
}

#[test]
fn draw_without_deposits_is_refused() {
    let (mut config, mut round, mut winners) = started();
    let before = (config, round.clone(), winners.clone());
    assert_eq!(
        draw_winner(&mut config, &mut round, &mut winners, key(ADMIN), key(1)),
        Err(ErrorCode::NoDeposits)
    );
    assert_eq!((config, round, winners), before);
}

#[test]
fn draw_of_one_who_made_no_deposit_is_refused() {
    let (mut config, mut round, mut winners) = started();
    deposit(&mut round, key(1), key(MINT), 100).unwrap();
    deposit(&mut round, key(2), key(MINT), 50).unwrap();
    winners.credit(key(3), 9).unwrap();
    let before = (config, round.clone(), winners.clone());
    assert_eq!(
        draw_winner(&mut config, &mut round, &mut winners, key(ADMIN), key(3)),
        Err(ErrorCode::InvalidWinner)
    );
    assert_eq!(
        draw_winner(&mut config, &mut round, &mut winners, key(ADMIN), key(ADMIN)),
        Err(ErrorCode::InvalidWinner)
    );
    assert_eq!((config, round, winners), before);
}

#[test]
fn winner_of_an_earlier_round_must_deposit_again() {
    let (mut config, mut round, mut winners) = started();
    deposit(&mut round, key(1), key(MINT), 100).unwrap();
    draw_winner(&mut config, &mut round, &mut winners, key(ADMIN), key(1)).unwrap();
    deposit(&mut round, key(2), key(MINT), 5).unwrap();
    assert_eq!(
        draw_winner(&mut config, &mut round, &mut winners, key(ADMIN), key(1)),
        Err(ErrorCode::InvalidWinner)
    );
}

#[test]
fn drawn_again_before_claiming_accumulates() {
    let (mut config, mut round, mut winners) = started();
    deposit(&mut round, key(1), key(MINT), 100).unwrap();
    deposit(&mut round, key(2), key(MINT), 1).unwrap();
    draw_winner(&mut config, &mut round, &mut winners, key(ADMIN), key(1)).unwrap();
    deposit(&mut round, key(1), key(MINT), 7).unwrap();
    deposit(&mut round, key(3), key(MINT), 13).unwrap();
    let second = draw_winner(&mut config, &mut round, &mut winners, key(ADMIN), key(1));
    assert_eq!(second.map(|t| t.amount), Ok(20));
    assert_eq!(winners.records, vec![WinnerRecord { winner: key(1), amount: 121 }]);
    assert_eq!(config.current_round, 2);
    assert_eq!(round, RoundInfo::new());
    deposit(&mut round, key(3), key(MINT), 4).unwrap();
    draw_winner(&mut config, &mut round, &mut winners, key(ADMIN), key(3)).unwrap();
    assert_eq!(
        winners.records,
        vec![
            WinnerRecord { winner: key(1), amount: 121 },
            WinnerRecord { winner: key(3), amount: 4 },
        ]
    );
    assert_eq!(claim_reward(&mut winners, key(1), 5).map(|p| p.payout_amount()), Ok(115));
}

#[test]
fn draw_overflowing_the_claim_is_refused() {
    let (mut config, mut round, mut winners) = started();
    winners.credit(key(1), u64::MAX - 5).unwrap();
    deposit(&mut round, key(1), key(MINT), 6).unwrap();
    let before = (config, round.clone(), winners.clone());
    assert_eq!(
        draw_winner(&mut config, &mut round, &mut winners, key(ADMIN), key(1)),
        Err(ErrorCode::Overflow)
    );
    assert_eq!((config, round.clone(), winners.clone()), before);
    assert_eq!(claim_reward(&mut winners, key(1), 0).map(|p| p.payout_amount()), Ok(u64::MAX - 5));
    assert_eq!(
        draw_winner(&mut config, &mut round, &mut winners, key(ADMIN), key(1)).map(|t| t.amount),
        Ok(6)
    );
}

#[test]
fn round_counter_wraps() {
    let (mut config, mut round, mut winners) = started();
    config.current_round = u64::MAX;
    deposit(&mut round, key(1), key(MINT), 1).unwrap();
    draw_winner(&mut config, &mut round, &mut winners, key(ADMIN), key(1)).unwrap();
    assert_eq!(config.current_round, 0);
}

#[test]
fn round_can_be_played_right_after_a_draw() {
    let (mut config, mut round, mut winners) = started();
    deposit(&mut round, key(1), key(MINT), 1).unwrap();
    draw_winner(&mut config, &mut round, &mut winners, key(ADMIN), key(1)).unwrap();
    assert!(round.is_round_open);
    assert_eq!(deposit(&mut round, key(2), key(MINT), 2).map(|t| t.amount), Ok(2));
    assert_eq!(round.deposit_indices[0].index, 0);
    assert!(round.is_valid());
    assert!(winners.is_valid());
}

#[test]
fn withdrawal_is_for_the_administrator() {
    let (config, _, _) = started();
    assert_eq!(
        admin_withdraw(&config, key(ADMIN), 500),
        Ok(Transfer { from: Custody::PrizeVault, to: Custody::AdminAccount, amount: 500 })
    );
    assert_eq!(admin_withdraw(&config, key(ADMIN), 0).map(|t| t.amount), Ok(0));
    assert_eq!(admin_withdraw(&config, key(1), 500), Err(ErrorCode::Unauthorized));
}

#[test]
fn owner_changes_at_the_owners_request_only() {
    let (mut config, _, _) = started();
    config.current_round = 4;
    assert_eq!(change_owner(&mut config, key(1), key(1)), Err(ErrorCode::Unauthorized));
    assert_eq!(config, Config { owner: key(ADMIN), current_round: 4 });
    assert_eq!(change_owner(&mut config, key(ADMIN), key(1)), Ok(()));
    assert_eq!(config, Config { owner: key(1), current_round: 4 });
    assert_eq!(require_admin(&config, &key(ADMIN)), Err(ErrorCode::Unauthorized));
    assert_eq!(change_owner(&mut config, key(1), key(1)), Ok(()));
    assert_eq!(change_owner(&mut config, key(1), Address::default()), Ok(()));
    assert!(config.owner.is_default());
}
