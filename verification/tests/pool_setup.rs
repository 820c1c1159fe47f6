use amm::create_amm::create_amm;
use amm::create_pool::create_pool;
use amm::errors::AmmError;
use amm::states::Pubkey;

fn key(tag: u64) -> Pubkey {
    Pubkey { w0: tag, w1: 2 * tag, w2: 3 * tag, w3: 4 * tag }
}

#[test]
fn create_amm_records_the_domain() {
    let registry = create_amm(key(1), 7, 30);
    assert_eq!(registry.admin, key(1));
    assert_eq!(registry.index, 7);
    assert_eq!(registry.fee, 30);
}

#[test]
fn create_pool_records_the_pair() {
    let pool = create_pool(key(1), key(2), key(3)).unwrap();
    assert_eq!(pool.amm, key(1));
    assert_eq!(pool.mint_a, key(2));
    assert_eq!(pool.mint_b, key(3));
}

#[test]
fn create_pool_rejects_identical_mints() {
    assert_eq!(
        create_pool(key(1), key(2), key(2)),
        Err(AmmError::MintAccountsAreEqual)
    );
}
