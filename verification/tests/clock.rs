use cmdhub::clock::now_epoch;

#[test]
fn clock_reads_seconds_since_the_epoch() {
    let a = now_epoch();
    let b = now_epoch();
    assert!(a > 1_600_000_000);
    assert!(b >= a);
    assert!(b - a < 60);
}
