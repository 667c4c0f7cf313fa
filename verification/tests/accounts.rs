use solana_programs::accounts::Pubkey;

#[test]
fn pubkey_equality_is_bytewise() {
    let mut a = [1u8; 32];
    let k1 = Pubkey::new_from_array(a);
    assert!(k1 == Pubkey::new_from_array(a));
    a[31] = 2;
    assert!(k1 != Pubkey::new_from_array(a));
    assert_eq!(k1.to_vec(), vec![1u8; 32]);
}
