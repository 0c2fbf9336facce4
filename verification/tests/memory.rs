use hardware_profile::memory::{bytes_to_gb, BYTES_PER_GB};

#[test]
fn nearly_thirty_two_gigabytes_are_thirty_two() {
    assert_eq!(bytes_to_gb(34308382720), 32);
}

#[test]
fn zero_bytes_are_two_gigabytes() {
    assert_eq!(bytes_to_gb(0), 2);
}

#[test]
fn small_memories_are_two_gigabytes() {
    assert_eq!(bytes_to_gb(1), 2);
    assert_eq!(bytes_to_gb(BYTES_PER_GB / 2), 2);
    assert_eq!(bytes_to_gb(BYTES_PER_GB), 2);
    assert_eq!(bytes_to_gb(2 * BYTES_PER_GB), 2);
}

#[test]
fn six_gigabytes_round_up_and_five_down() {
    assert_eq!(bytes_to_gb(6 * BYTES_PER_GB), 8);
    assert_eq!(bytes_to_gb(5 * BYTES_PER_GB), 4);
}

#[test]
fn three_gigabytes_are_four() {
    assert_eq!(bytes_to_gb(3 * BYTES_PER_GB), 4);
}

#[test]
fn the_first_boundary_lies_at_two_to_the_three_halves() {
    // 2^(3/2) GB is 3037000499.97.. bytes.
    assert_eq!(bytes_to_gb(3037000499), 2);
    assert_eq!(bytes_to_gb(3037000500), 4);
}

#[test]
fn the_second_boundary_lies_at_two_to_the_five_halves() {
    // 2^(5/2) GB is 6074000999.95.. bytes.
    assert_eq!(bytes_to_gb(6074000999), 4);
    assert_eq!(bytes_to_gb(6074001000), 8);
}

#[test]
fn the_largest_count_is_two_to_the_thirty_four() {
    assert_eq!(bytes_to_gb(u64::MAX), 17179869184);
    // 2^(63.5) is 13043817825332782212.06..
    assert_eq!(bytes_to_gb(13043817825332782212), 8589934592);
    assert_eq!(bytes_to_gb(13043817825332782213), 17179869184);
}

#[test]
fn powers_of_two_are_kept() {
    let mut e: u32 = 1;
    while e <= 33 {
        assert_eq!(bytes_to_gb((1u64 << e) * BYTES_PER_GB), 1u64 << e);
        e += 1;
    }
}

#[test]
fn normalising_twice_changes_nothing() {
    let samples: [u64; 9] = [
        0,
        1,
        BYTES_PER_GB,
        3037000500,
        34308382720,
        6 * BYTES_PER_GB,
        999275098112,
        1 << 50,
        13043817825332782212,
    ];
    for b in samples {
        let once = bytes_to_gb(b);
        assert_eq!(bytes_to_gb(once * BYTES_PER_GB), once, "{}", b);
    }
}

#[test]
fn the_result_is_a_power_of_two_of_at_least_two() {
    let mut b: u64 = 0;
    let mut n: u32 = 0;
    while n < 2000 {
        let gb = bytes_to_gb(b);
        assert!(gb >= 2 && gb.is_power_of_two(), "{}", b);
        b = b.wrapping_mul(6364136223846793005).wrapping_add(1442695040888963407);
        n += 1;
    }
}

#[test]
fn the_result_agrees_with_the_logarithm_away_from_the_boundaries() {
    let samples: [u64; 6] =
        [34308382720, 5 * BYTES_PER_GB, 6 * BYTES_PER_GB, 17 * BYTES_PER_GB, 100 * BYTES_PER_GB, 1 << 45];
    for b in samples {
        let gb = b as f64 / (1024.0 * 1024.0 * 1024.0);
        let expected = 2u64.pow((gb.log2().round() as u32).max(1));
        assert_eq!(bytes_to_gb(b), expected, "{}", b);
    }
}
