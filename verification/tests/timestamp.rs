use velocitas_fix::time::unix_nanos_from;
use velocitas_fix::timestamp::{fix_timestamp, now_fix_timestamp};

#[test]
fn epoch_and_known_dates() {
    assert_eq!(fix_timestamp(0), b"19700101-00:00:00.000".to_vec());
    assert_eq!(fix_timestamp(1_774_087_200_123_000_000), b"20260321-10:00:00.123".to_vec());
    assert_eq!(fix_timestamp(951_868_799_999_000_000), b"20000229-23:59:59.999".to_vec());
    assert_eq!(fix_timestamp(4_107_542_400_000_000_000), b"21000301-00:00:00.000".to_vec());
    assert_eq!(fix_timestamp(94_653_296_789_000_000), b"19721231-12:34:56.789".to_vec());
    assert_eq!(fix_timestamp(u64::MAX), b"25540721-23:34:33.709".to_vec());
}

#[test]
fn now_has_the_fix_shape() {
    let ts = now_fix_timestamp();
    assert_eq!(ts.len(), 21);
    assert_eq!(ts[8], b'-');
    assert_eq!(ts[11], b':');
    assert_eq!(ts[14], b':');
    assert_eq!(ts[17], b'.');
    assert!(ts.starts_with(b"20"));
}

#[test]
fn clock_readings_map_to_unix_nanos() {
    assert_eq!(unix_nanos_from(None), 0);
    assert_eq!(unix_nanos_from(Some(0)), 0);
    assert_eq!(unix_nanos_from(Some(1_774_087_200_123_000_000)), 1_774_087_200_123_000_000);
    assert_eq!(unix_nanos_from(Some(u64::MAX as u128)), u64::MAX);
    assert_eq!(unix_nanos_from(Some(u64::MAX as u128 + 1)), u64::MAX);
}
