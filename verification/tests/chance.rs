use intercal::chance::{admits, check_chance};

#[test]
fn a_chance_of_100_always_runs() {
    for _ in 0..1000 {
        assert!(check_chance(100));
    }
    assert!(admits(100, 0));
    assert!(admits(100, 0xFFFF_FFFF));
    assert!(admits(255, 0xFFFF_FFFF));
}

#[test]
fn a_draw_admits_up_to_the_chance() {
    assert!(admits(50, 0));
    assert!(admits(50, 0x7FFF_FFFF));
    assert!(!admits(50, 0x8000_0000));
    assert!(admits(0, 0));
    assert!(!admits(0, 1));
    assert!(admits(99, 4252017622));
    assert!(!admits(99, 4252017623));
    assert!(admits(1, 42949672));
    assert!(!admits(1, 42949673));
}

#[test]
fn a_chance_below_100_runs_sometimes() {
    let mut ran = 0;
    let mut skipped = 0;
    for _ in 0..2000 {
        if check_chance(50) {
            ran += 1;
        } else {
            skipped += 1;
        }
    }
    assert!(ran > 0);
    assert!(skipped > 0);
}
