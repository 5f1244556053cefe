use pika_pulse::pow2::is_power_of_two;
use pika_pulse::pow2::next_power_of_two;

#[test]
fn powers_of_two_are_recognised() {
    for n in 0usize..=4100 {
        assert_eq!(is_power_of_two(n), n.is_power_of_two(), "{n}");
    }
    assert!(is_power_of_two(1 << 40));
    assert!(!is_power_of_two((1 << 40) + 1));
    assert!(is_power_of_two(usize::MAX / 2 + 1));
    assert!(!is_power_of_two(usize::MAX));
}

#[test]
fn next_power_of_two_is_the_least_one_not_below() {
    for n in 0usize..=4100 {
        assert_eq!(next_power_of_two(n), n.checked_next_power_of_two(), "{n}");
    }
    assert_eq!(next_power_of_two(0), Some(1));
    assert_eq!(next_power_of_two(240000), Some(262144));
    assert_eq!(next_power_of_two(usize::MAX / 2 + 1), Some(usize::MAX / 2 + 1));
}

#[test]
fn next_power_of_two_that_does_not_fit_is_none() {
    assert_eq!(next_power_of_two(usize::MAX / 2 + 2), None);
    assert_eq!(next_power_of_two(usize::MAX), None);
}
