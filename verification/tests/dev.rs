use uapi::major;
use uapi::makedev;
use uapi::minor;

#[test]
fn makedev_round_trip() {
    let dev = makedev(8, 1);
    assert_eq!(dev, 0x801);
    assert_eq!(major(dev), 8);
    assert_eq!(minor(dev), 1);

    // Large major/minor numbers use the extended high bits.
    let dev = makedev(0xfffff, 0xfffffff);
    assert_eq!(major(dev), 0xfffff);
    assert_eq!(minor(dev), 0xfffffff);
}
