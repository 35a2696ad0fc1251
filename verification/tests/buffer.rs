use scale::Buffer;

fn filled<const N: usize>(oldest_first: [i64; N]) -> Buffer<N> {
    let mut buffer: Buffer<N> = Buffer::new();
    for value in oldest_first {
        buffer.push(value);
    }
    buffer
}

#[test]
fn new_buffer_holds_zeros() {
    let buffer: Buffer<4> = Buffer::new();
    assert_eq!(buffer.values(), [0i64, 0, 0, 0]);
    assert_eq!(buffer.average(), 0);
    assert_eq!(buffer.median(), 0);
    assert_eq!(buffer.corrected_average(), 0);
}

#[test]
fn zero_resets_every_slot() {
    let mut buffer: Buffer<3> = filled([7, -8, 9]);
    assert_eq!(buffer.values(), [9i64, -8, 7]);
    buffer.zero();
    assert_eq!(buffer.values(), [0i64, 0, 0]);
    assert_eq!(buffer, Buffer::<3>::new());
}

#[test]
fn push_puts_newest_first() {
    let mut buffer: Buffer<4> = Buffer::new();
    buffer.push(11);
    assert_eq!(buffer.values(), [11i64, 0, 0, 0]);
    buffer.push(22);
    assert_eq!(buffer.values(), [22i64, 11, 0, 0]);
    buffer.push(33);
    buffer.push(44);
    assert_eq!(buffer.values(), [44i64, 33, 22, 11]);
}

#[test]
fn push_evicts_exactly_the_oldest() {
    let mut buffer: Buffer<4> = Buffer::new();
    let incoming: [i64; 5] = [101, 102, 103, 104, 105];
    for value in incoming {
        buffer.push(value);
    }
    let window: [i64; 4] = buffer.values();
    assert!(!window.contains(&101));
    assert!(window.contains(&102));
    assert!(window.contains(&103));
    assert!(window.contains(&104));
    assert!(window.contains(&105));
    assert_eq!(window, [105i64, 104, 103, 102]);
}

#[test]
fn push_into_a_single_slot_replaces_it() {
    let mut buffer: Buffer<1> = Buffer::new();
    buffer.push(5);
    assert_eq!(buffer.values(), [5i64]);
    buffer.push(-6);
    assert_eq!(buffer.values(), [-6i64]);
    assert_eq!(buffer.average(), -6);
    assert_eq!(buffer.median(), -6);
}

#[test]
fn average_of_a_constant_fill_is_the_constant() {
    let constants: [i64; 7] = [0, 1, -1, 3000, -2999, i64::MAX, i64::MIN];
    for v in constants {
        assert_eq!(filled([v; 1]).average(), v);
        assert_eq!(filled([v; 2]).average(), v);
        assert_eq!(filled([v; 3]).average(), v);
        assert_eq!(filled([v; 4]).average(), v);
        assert_eq!(filled([v; 9]).average(), v);
    }
}

#[test]
fn average_is_the_mean() {
    assert_eq!(filled([1, 2, 3, 4]).average(), 2);
    assert_eq!(filled([10, 20, 30, 40]).average(), 25);
    assert_eq!(filled([3000, 3002, 2998, 3004]).average(), 3001);
}

#[test]
fn average_rounds_toward_zero() {
    assert_eq!(filled([7, 0, 0, 0]).average(), 1);
    assert_eq!(filled([-7, 0, 0, 0]).average(), -1);
    assert_eq!(filled([-1, -2, 0, 0]).average(), 0);
    assert_eq!(filled([1, 2, 0, 0]).average(), 0);
}

#[test]
fn average_counts_zeros_not_yet_pushed_over() {
    let mut buffer: Buffer<4> = Buffer::new();
    buffer.push(400);
    assert_eq!(buffer.average(), 100);
    buffer.push(400);
    assert_eq!(buffer.average(), 200);
}

#[test]
fn average_does_not_overflow() {
    assert_eq!(filled([i64::MAX, i64::MAX, i64::MAX - 3, i64::MAX]).average(), i64::MAX - 1);
    assert_eq!(filled([i64::MIN, i64::MAX, i64::MIN, i64::MAX]).average(), 0);
}

#[test]
fn corrected_average_drops_one_high_and_one_low_outlier() {
    assert_eq!(filled([3000, 99_999, 3002, -50_000, 3004]).corrected_average(), 3002);
    assert_eq!(filled([-50_000, 3000, 3002, 3004, 99_999]).corrected_average(), 3002);
    assert_eq!(filled([99_999, -50_000, 3000, 3002, 3004]).corrected_average(), 3002);
    assert_eq!(filled([10, 1000, -1000, 20]).corrected_average(), 15);
}

#[test]
fn corrected_average_of_three_is_the_middle_value() {
    assert_eq!(filled([5, 1, 9]).corrected_average(), 5);
    assert_eq!(filled([9, 5, 1]).corrected_average(), 5);
    assert_eq!(filled([-3, -1, -2]).corrected_average(), -2);
}

#[test]
fn corrected_average_drops_only_one_of_equal_extremes() {
    assert_eq!(filled([5, 5, 5]).corrected_average(), 5);
    assert_eq!(filled([9, 9, 1, 1]).corrected_average(), 5);
    assert_eq!(filled([9, 9, 9, 1]).corrected_average(), 9);
    assert_eq!(filled([1, 1, 1, 9]).corrected_average(), 1);
}

#[test]
fn corrected_average_handles_windows_below_zero() {
    assert_eq!(filled([-10, -20, -30, -40]).corrected_average(), -25);
    assert_eq!(filled([-1, -2, -4, -100]).corrected_average(), -3);
}

#[test]
fn corrected_average_rounds_toward_zero() {
    assert_eq!(filled([0, 1, 2, 100, -100]).corrected_average(), 1);
    assert_eq!(filled([-5, -2, 0, 100, -100]).corrected_average(), -2);
    assert_eq!(filled([2, 3, 100, -100]).corrected_average(), 2);
}

#[test]
fn corrected_average_does_not_overflow() {
    assert_eq!(filled([i64::MAX, i64::MAX, i64::MAX, i64::MIN]).corrected_average(), i64::MAX);
    assert_eq!(filled([i64::MIN, i64::MIN, i64::MIN, i64::MAX]).corrected_average(), i64::MIN);
}

#[test]
fn median_of_one_to_four_is_three_in_any_push_order() {
    let items: [i64; 4] = [1, 2, 3, 4];
    let mut orders: usize = 0;
    for a in 0..4usize {
        for b in 0..4usize {
            for c in 0..4usize {
                for d in 0..4usize {
                    if a == b || a == c || a == d || b == c || b == d || c == d {
                        continue;
                    }
                    let buffer: Buffer<4> = filled([items[a], items[b], items[c], items[d]]);
                    assert_eq!(buffer.median(), 3);
                    orders += 1;
                }
            }
        }
    }
    assert_eq!(orders, 24);
}

#[test]
fn median_of_an_odd_window_is_the_middle() {
    assert_eq!(filled([30, 10, 20]).median(), 20);
    assert_eq!(filled([5, 4, 3, 2, 1]).median(), 3);
    assert_eq!(filled([-1, 100, -100, 0, 7]).median(), 0);
}

#[test]
fn median_of_an_even_window_is_the_upper_middle() {
    assert_eq!(filled([1, 2]).median(), 2);
    assert_eq!(filled([2, 1]).median(), 2);
    assert_eq!(filled([40, 10, 30, 20, 60, 50]).median(), 40);
}

#[test]
fn median_with_repeated_values() {
    assert_eq!(filled([2, 2, 1, 1]).median(), 2);
    assert_eq!(filled([1, 1, 1, 2]).median(), 1);
    assert_eq!(filled([7, 7, 7, 7]).median(), 7);
}

#[test]
fn median_ignores_outliers() {
    assert_eq!(filled([3000, i64::MAX, 3002, i64::MIN, 3001]).median(), 3001);
}

#[test]
fn median_leaves_the_window_as_it_was() {
    let buffer: Buffer<4> = filled([4, 1, 3, 2]);
    assert_eq!(buffer.median(), 3);
    assert_eq!(buffer.values(), [2i64, 3, 1, 4]);
}
