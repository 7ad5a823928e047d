use sha256_digestion::compression::{compress, message_schedule};
use sha256_digestion::constants::{BLOCK_SIZE_BYTES, INITIAL_HASH_STATE, K};
use sha256_digestion::primitives::{b_sigma_0, b_sigma_1, ch, l_sigma_0, l_sigma_1, maj, rot_r};

/// The one block that the message "abc" pads to.
fn abc_block() -> Vec<u8> {
    let mut block: Vec<u8> = vec![0x61, 0x62, 0x63, 0x80];
    while block.len() < 63 {
        block.push(0);
    }
    block.push(24);
    block
}

#[test]
fn rot_r_moves_low_bits_to_the_top() {
    assert_eq!(rot_r(0x12345678, 8), 0x78123456);
    assert_eq!(rot_r(0x12345678, 1), 0x091a2b3c);
    assert_eq!(rot_r(0x80000001, 31), 0x00000003);
    assert_eq!(rot_r(1, 1), 0x80000000);
}

#[test]
fn rot_r_by_zero_is_identity() {
    assert_eq!(rot_r(0x12345678, 0), 0x12345678);
    assert_eq!(rot_r(0xffffffff, 0), 0xffffffff);
}

#[test]
fn rot_r_agrees_with_rotate_right() {
    let mut n: u32 = 0;
    while n < 32 {
        assert_eq!(rot_r(0xdeadbeef, n), 0xdeadbeefu32.rotate_right(n));
        n += 1;
    }
}

#[test]
fn ch_chooses_by_first_argument() {
    assert_eq!(ch(0xffffffff, 0x12345678, 0x9abcdef0), 0x12345678);
    assert_eq!(ch(0x00000000, 0x12345678, 0x9abcdef0), 0x9abcdef0);
    assert_eq!(ch(0x12345678, 0x0f0f0f0f, 0xffff0000), 0xefcf0608);
}

#[test]
fn maj_takes_the_majority() {
    assert_eq!(maj(0xffffffff, 0xffffffff, 0x00000000), 0xffffffff);
    assert_eq!(maj(0xffffffff, 0x00000000, 0x00000000), 0x00000000);
    assert_eq!(maj(0x12345678, 0x0f0f0f0f, 0xffff0000), 0x1f3f0608);
}

#[test]
fn sigma_values() {
    assert_eq!(b_sigma_0(0x12345678), 0x66146474);
    assert_eq!(b_sigma_1(0x12345678), 0x3561abda);
    assert_eq!(l_sigma_0(0x12345678), 0xe7fce6ee);
    assert_eq!(l_sigma_1(0x12345678), 0xa1f78649);
}

#[test]
fn sigma_of_zero_is_zero() {
    assert_eq!(b_sigma_0(0), 0);
    assert_eq!(b_sigma_1(0), 0);
    assert_eq!(l_sigma_0(0), 0);
    assert_eq!(l_sigma_1(0), 0);
}

#[test]
fn constant_tables() {
    assert_eq!(BLOCK_SIZE_BYTES, 64);
    assert_eq!(INITIAL_HASH_STATE[0], 0x6a09e667);
    assert_eq!(INITIAL_HASH_STATE[7], 0x5be0cd19);
    assert_eq!(K[0], 0x428a2f98);
    assert_eq!(K[63], 0xc67178f2);
}

#[test]
fn schedule_starts_with_big_endian_words() {
    let sched = message_schedule(&abc_block());
    assert_eq!(sched[0], 0x61626380);
    assert_eq!(sched[1], 0);
    assert_eq!(sched[15], 0x00000018);
}

#[test]
fn schedule_expands_by_the_recurrence() {
    let sched = message_schedule(&abc_block());
    assert_eq!(sched[16], 0x61626380);
    assert_eq!(sched[17], 0x000f0000);
    assert_eq!(sched[63], 0x12b1edeb);
}

#[test]
fn compress_abc_block() {
    let out = compress(&INITIAL_HASH_STATE, &abc_block());
    assert_eq!(
        out,
        [
            0xba7816bf, 0x8f01cfea, 0x414140de, 0x5dae2223,
            0xb00361a3, 0x96177a9c, 0xb410ff61, 0xf20015ad,
        ]
    );
}

#[test]
fn compress_zero_block() {
    let out = compress(&INITIAL_HASH_STATE, &[0u8; 64]);
    assert_eq!(
        out,
        [
            0xda5698be, 0x17b9b469, 0x62335799, 0x779fbeca,
            0x8ce5d491, 0xc0d26243, 0xbafef9ea, 0x1837a9d8,
        ]
    );
}

#[test]
fn compress_from_zero_state() {
    let mut block: Vec<u8> = Vec::new();
    let mut i: u8 = 0;
    while i < 64 {
        block.push(i);
        i += 1;
    }
    let out = compress(&[0u32; 8], &block);
    assert_eq!(
        out,
        [
            0xc6e08a73, 0xd0f4b2c6, 0x53130b1f, 0xaeb6b36d,
            0x3429ef95, 0x73fd6544, 0x1640f295, 0x7f4c8e38,
        ]
    );
}

#[test]
fn compress_leaves_its_input_state_alone() {
    let state = INITIAL_HASH_STATE;
    let first = compress(&state, &abc_block());
    let second = compress(&state, &abc_block());
    assert_eq!(first, second);
    assert_eq!(state, INITIAL_HASH_STATE);
}
