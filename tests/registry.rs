use banners::{Banner, BannerError, Event, Module};

fn registry_with(owner_of_ids: &[(u64, u64)]) -> Module {
    let mut m = Module::new();
    for &(owner, id) in owner_of_ids {
        m.create_banner(owner, id, b"n".to_vec(), b"u".to_vec(), b"d".to_vec()).unwrap();
    }
    m
}

fn check_indices(m: &Module, ids: &[u64]) {
    let total = m.all_banners_count();
    assert_eq!(total as usize, ids.len());
    let mut per_owner_sum = 0u64;
    let mut owners: Vec<u64> = Vec::new();
    for i in 0..total {
        let id = m.banner_by_index(i).unwrap();
        let owner = m.owner_of(id).unwrap();
        if !owners.contains(&owner) {
            owners.push(owner);
            per_owner_sum += m.owned_banner_count(owner);
        }
        let mut found = 0;
        for j in 0..m.owned_banner_count(owner) {
            if m.banner_of_owner_by_index(owner, j) == Some(id) {
                found += 1;
            }
        }
        assert_eq!(found, 1);
    }
    assert_eq!(per_owner_sum, total);
}

#[test]
fn create_sets_counts_and_indices() {
    let mut m = Module::new();
    let r = m.create_banner(1, 10, b"flag".to_vec(), b"img".to_vec(), b"desc".to_vec());
    assert_eq!(r, Ok(Event::CreateBanner(1, 10)));
    assert_eq!(m.all_banners_count(), 1);
    assert_eq!(m.owned_banner_count(1), 1);
    assert_eq!(m.owned_banner_count(2), 0);
    assert_eq!(m.banner_by_index(0), Some(10));
    assert_eq!(m.banner_by_index(1), None);
    assert_eq!(m.banner_of_owner_by_index(1, 0), Some(10));
    assert_eq!(m.owner_of(10), Some(1));
    assert_eq!(m.nonce(), 1);
    let b = m.banner(10).unwrap();
    assert_eq!(b.id, 10);
    assert_eq!(b.name, b"flag".to_vec());
    assert_eq!(b.image_url, b"img".to_vec());
    assert_eq!(b.desc, b"desc".to_vec());
    assert_eq!(b.current_price, 0);
    assert_eq!(b.current_bidder, 1);
    assert!(!b.can_bid);
    assert_eq!(b.bid_end_height, 0);
}

#[test]
fn create_duplicate_id_fails_without_change() {
    let mut m = registry_with(&[(1, 10)]);
    let r = m.create_banner(2, 10, Vec::new(), Vec::new(), Vec::new());
    assert_eq!(r, Err(BannerError::DuplicateId));
    assert_eq!(m.all_banners_count(), 1);
    assert_eq!(m.owned_banner_count(2), 0);
    assert_eq!(m.owner_of(10), Some(1));
    assert_eq!(m.nonce(), 1);
}

#[test]
fn empty_registry_has_nothing() {
    let m = Module::new();
    assert_eq!(m.all_banners_count(), 0);
    assert_eq!(m.banner_by_index(0), None);
    assert_eq!(m.owner_of(5), None);
    assert!(m.banner(5).is_none());
    assert_eq!(m.banner_of_owner_by_index(1, 0), None);
    assert_eq!(m.nonce(), 0);
}

#[test]
fn transfer_swaps_last_into_vacated_slot() {
    let mut m = registry_with(&[(1, 10), (1, 11), (1, 12)]);
    let r = m.transfer_from(1, 2, 10);
    assert_eq!(r, Ok(Event::Transferred(1, 2, 10)));
    assert_eq!(m.owned_banner_count(1), 2);
    assert_eq!(m.banner_of_owner_by_index(1, 0), Some(12));
    assert_eq!(m.banner_of_owner_by_index(1, 1), Some(11));
    assert_eq!(m.banner_of_owner_by_index(1, 2), None);
    assert_eq!(m.owned_banner_count(2), 1);
    assert_eq!(m.banner_of_owner_by_index(2, 0), Some(10));
    assert_eq!(m.owner_of(10), Some(2));
    // the global index is untouched
    assert_eq!(m.banner_by_index(0), Some(10));
    assert_eq!(m.banner_by_index(1), Some(11));
    assert_eq!(m.banner_by_index(2), Some(12));
    check_indices(&m, &[10, 11, 12]);
}

#[test]
fn transfer_of_last_entry_just_pops() {
    let mut m = registry_with(&[(1, 10), (1, 11)]);
    m.transfer_from(1, 2, 11).unwrap();
    assert_eq!(m.owned_banner_count(1), 1);
    assert_eq!(m.banner_of_owner_by_index(1, 0), Some(10));
    assert_eq!(m.banner_of_owner_by_index(2, 0), Some(11));
    check_indices(&m, &[10, 11]);
}

#[test]
fn transfer_errors() {
    let mut m = registry_with(&[(1, 10)]);
    assert_eq!(m.transfer_from(1, 2, 99), Err(BannerError::NotOwner));
    assert_eq!(m.transfer_from(3, 2, 10), Err(BannerError::NotOwner));
    assert_eq!(m.owner_of(10), Some(1));
    assert_eq!(m.owned_banner_count(1), 1);
    assert_eq!(m.owned_banner_count(2), 0);
}

#[test]
fn transfer_to_self_changes_nothing() {
    let mut m = registry_with(&[(1, 10), (1, 11)]);
    assert_eq!(m.transfer_from(1, 1, 10), Ok(Event::Transferred(1, 1, 10)));
    assert_eq!(m.owned_banner_count(1), 2);
    assert_eq!(m.banner_of_owner_by_index(1, 0), Some(10));
    assert_eq!(m.banner_of_owner_by_index(1, 1), Some(11));
}

#[test]
fn indices_stay_consistent_over_mixed_operations() {
    let mut m = registry_with(&[(1, 10), (2, 11), (1, 12), (3, 13), (1, 14)]);
    m.transfer_from(1, 2, 12).unwrap();
    m.transfer_from(2, 3, 11).unwrap();
    m.create_banner(2, 15, Vec::new(), Vec::new(), Vec::new()).unwrap();
    m.transfer_from(1, 3, 10).unwrap();
    m.transfer_from(3, 1, 13).unwrap();
    check_indices(&m, &[10, 11, 12, 13, 14, 15]);
    assert_eq!(m.owned_banner_count(1), 2);
    assert_eq!(m.owned_banner_count(2), 2);
    assert_eq!(m.owned_banner_count(3), 2);
    assert_eq!(m.nonce(), 6);
}

#[test]
fn conservation_of_counts() {
    let mut m = registry_with(&[(1, 10), (2, 11), (1, 12)]);
    m.transfer_from(1, 4, 10).unwrap();
    let sum = m.owned_banner_count(1) + m.owned_banner_count(2) + m.owned_banner_count(4);
    assert_eq!(sum, m.all_banners_count());
    assert_eq!(sum, 3);
}

#[test]
fn set_image_url_by_owner_only() {
    let mut m = registry_with(&[(1, 10)]);
    assert_eq!(m.set_image_url(2, 10, b"x".to_vec()), Err(BannerError::NotOwner));
    assert_eq!(m.set_image_url(1, 99, b"x".to_vec()), Err(BannerError::NotFound));
    assert_eq!(m.banner(10).unwrap().image_url, b"u".to_vec());
    assert_eq!(m.set_image_url(1, 10, b"new".to_vec()), Ok(()));
    let b = m.banner(10).unwrap();
    assert_eq!(b.image_url, b"new".to_vec());
    assert_eq!(b.name, b"n".to_vec());
    assert_eq!(b.desc, b"d".to_vec());
    assert_eq!(m.all_banners_count(), 1);
}

#[test]
fn id_preimage_encodes_seed_sender_and_nonce() {
    let mut m = Module::new();
    let first = m.id_preimage(0x0102030405060708, 9);
    let mut expected = vec![8u8, 7, 6, 5, 4, 3, 2, 1];
    expected.extend_from_slice(&[9, 0, 0, 0, 0, 0, 0, 0]);
    expected.extend_from_slice(&[0; 8]);
    assert_eq!(first, expected);
    m.create_banner(9, 1, Vec::new(), Vec::new(), Vec::new()).unwrap();
    let second = m.id_preimage(0x0102030405060708, 9);
    assert_eq!(&second[..16], &expected[..16]);
    assert_eq!(&second[16..], &[1, 0, 0, 0, 0, 0, 0, 0]);
}

fn plain_banner(id: u64) -> Banner {
    Banner {
        id,
        name: b"n".to_vec(),
        image_url: Vec::new(),
        desc: Vec::new(),
        current_price: 0,
        current_bidder: 0,
        can_bid: false,
        bid_end_height: 0,
    }
}

#[test]
fn mint_appends_to_both_indices() {
    let mut m = registry_with(&[(1, 10)]);
    assert_eq!(m.mint(2, 20, plain_banner(999)), Ok(Event::CreateBanner(2, 20)));
    assert_eq!(m.all_banners_count(), 2);
    assert_eq!(m.banner_by_index(1), Some(20));
    assert_eq!(m.owned_banner_count(2), 1);
    assert_eq!(m.banner_of_owner_by_index(2, 0), Some(20));
    assert_eq!(m.owner_of(20), Some(2));
    assert_eq!(m.banner(20).unwrap().id, 999);
    assert_eq!(m.banner(20).unwrap().name, b"n".to_vec());
    assert_eq!(m.nonce(), 1);
    assert_eq!(m.mint(1, 21, plain_banner(21)), Ok(Event::CreateBanner(1, 21)));
    assert_eq!(m.banner_of_owner_by_index(1, 1), Some(21));
    check_indices(&m, &[10, 20, 21]);
}

#[test]
fn mint_duplicate_id_fails_without_change() {
    let mut m = registry_with(&[(1, 10)]);
    assert_eq!(m.mint(2, 10, plain_banner(10)), Err(BannerError::DuplicateId));
    assert_eq!(m.all_banners_count(), 1);
    assert_eq!(m.owned_banner_count(2), 0);
    assert_eq!(m.owner_of(10), Some(1));
}
