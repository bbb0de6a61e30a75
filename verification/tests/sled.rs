use cch23_challenge::sled::cube;
use cch23_challenge::sled::packet_ids;
use cch23_challenge::sled::SledError;
use cch23_challenge::sled::TOO_MANY_PACKETS;

#[test]
fn num1_xor_num2_pow_3() {
    assert_eq!(packet_ids("3/5"), Ok((3_i32 ^ 5_i32).pow(3)));
    assert_eq!(packet_ids("3/5"), Ok(216));
    assert_eq!(packet_ids("4/8"), Ok(1728));
}

#[test]
fn one_packet_ids() {
    assert_eq!(packet_ids("10"), Ok(1000));
    assert_eq!(packet_ids("-3"), Ok(-27));
    assert_eq!(packet_ids("+3"), Ok(27));
    assert_eq!(packet_ids("4/5/8/10"), Ok(27));
}

#[test]
fn invalid_packet_ids() {
    let path = "1/2/3/4/5/6/7/8/9/10/11/12/13/14/15/16/17/18/19/20/21";
    assert_eq!(packet_ids(path), Err(SledError::TooManyPackets));
    let twenty = "1/2/3/4/5/6/7/8/9/10/11/12/13/14/15/16/17/18/19/20";
    assert_eq!(packet_ids(twenty), Ok(20 * 20 * 20));
    assert_eq!(
        TOO_MANY_PACKETS,
        "packet ids must be between 1 and 20 inclusive packets in a sled"
    );
}

#[test]
fn piece_that_is_no_number_counts_as_zero() {
    assert_eq!(packet_ids("abc/7"), Ok(343));
    assert_eq!(packet_ids(""), Ok(0));
    assert_eq!(packet_ids("7/"), Ok(343));
    assert_eq!(packet_ids("7//7"), Ok(0));
    assert_eq!(packet_ids("2147483648/2"), Ok(8));
    assert_eq!(packet_ids(" 5"), Ok(0));
}

#[test]
fn cube_that_does_not_fit_is_refused() {
    assert_eq!(packet_ids("1290"), Ok(2146689000));
    assert_eq!(packet_ids("1291"), Err(SledError::Overflow));
    assert_eq!(packet_ids("-1290"), Ok(-2146689000));
    assert_eq!(packet_ids("-1291"), Err(SledError::Overflow));
    assert_eq!(cube(i32::MIN), None);
    assert_eq!(cube(i32::MAX), None);
    assert_eq!(cube(0), Some(0));
}
