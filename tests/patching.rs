use deet::patch::{align_addr_to_word, splice_byte, TRAP_BYTE};

#[test]
fn aligns_down_to_the_word() {
    assert_eq!(align_addr_to_word(0x1003), 0x1000);
    assert_eq!(align_addr_to_word(0x1008), 0x1008);
    assert_eq!(align_addr_to_word(7), 0);
    assert_eq!(align_addr_to_word(usize::MAX), usize::MAX - 7);
}

#[test]
fn splice_lowest_and_highest_byte() {
    assert_eq!(splice_byte(0x1122334455667788, 0, TRAP_BYTE), (0x11223344556677cc, 0x88));
    assert_eq!(splice_byte(0x1122334455667788, 7, TRAP_BYTE), (0xcc22334455667788, 0x11));
    assert_eq!(splice_byte(0x1122334455667788, 3, 0x00), (0x1122334400667788, 0x55));
}

#[test]
fn splice_back_restores_the_word() {
    let word: u64 = 0x0123456789abcdef;
    for offset in 0..8usize {
        let (patched, original) = splice_byte(word, offset, TRAP_BYTE);
        assert_ne!(patched, word);
        let (restored, trap) = splice_byte(patched, offset, original);
        assert_eq!(trap, TRAP_BYTE);
        assert_eq!(restored, word);
    }
}
